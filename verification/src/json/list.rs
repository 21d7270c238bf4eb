//! Operations on lists of records, shared by projects, categories and assets.
use vstd::prelude::*;
use crate::json::model::Named;
use crate::text::str_eq;

verus! {

/// The largest id in the list, or 0 for an empty list.
pub open spec fn max_id<T: Named>(s: Seq<T>) -> nat
    decreases s.len(),
{
    if s.len() == 0 {
        0
    } else {
        let m = max_id(s.drop_last());
        if s.last().spec_id() > m {
            s.last().spec_id() as nat
        } else {
            m
        }
    }
}

/// The id the next record added to the list receives.
pub open spec fn next_id<T: Named>(s: Seq<T>) -> nat {
    max_id(s) + 1
}

/// Some record of the list has this name.
pub open spec fn has_name<T: Named>(s: Seq<T>, name: Seq<char>) -> bool {
    exists|i: int| 0 <= i < s.len() && #[trigger] s[i].spec_name() == name
}

/// `i` is the index of the first record with this name.
pub open spec fn first_with_name<T: Named>(s: Seq<T>, name: Seq<char>, i: int) -> bool {
    &&& 0 <= i < s.len()
    &&& s[i].spec_name() == name
    &&& forall|j: int| 0 <= j < i ==> #[trigger] s[j].spec_name() != name
}

/// `i` is the index of the first record with this id.
pub open spec fn first_with_id<T: Named>(s: Seq<T>, id: u32, i: int) -> bool {
    &&& 0 <= i < s.len()
    &&& s[i].spec_id() == id
    &&& forall|j: int| 0 <= j < i ==> #[trigger] s[j].spec_id() != id
}

/// Some record of the list has this id.
pub open spec fn has_id<T: Named>(s: Seq<T>, id: u32) -> bool {
    exists|i: int| 0 <= i < s.len() && #[trigger] s[i].spec_id() == id
}

/// Holds of the records whose name is not `name`.
pub open spec fn name_differs<T: Named>(name: Seq<char>) -> spec_fn(T) -> bool {
    |x: T| x.spec_name() != name
}

/// The list without the records of this name, the others in their order.
pub open spec fn without_name<T: Named>(s: Seq<T>, name: Seq<char>) -> Seq<T> {
    s.filter(name_differs(name))
}

/// Every id in the list is at most `max_id`, and a non-empty list holds it.
pub proof fn lemma_max_id<T: Named>(s: Seq<T>)
    ensures
        forall|i: int| 0 <= i < s.len() ==> #[trigger] s[i].spec_id() <= max_id(s),
        s.len() > 0 ==> exists|i: int| 0 <= i < s.len() && #[trigger] s[i].spec_id() == max_id(s),
        max_id(s) <= u32::MAX,
    decreases s.len(),
{
    if s.len() > 0 {
        let t = s.drop_last();
        lemma_max_id(t);
        assert forall|i: int| 0 <= i < s.len() implies #[trigger] s[i].spec_id() <= max_id(s) by {
            if i < s.len() - 1 {
                assert(s[i] == t[i]);
            }
        }
        assert(s[s.len() - 1] == s.last());
        if s.last().spec_id() > max_id(t) {
            assert(s[s.len() - 1].spec_id() == max_id(s));
        } else if t.len() > 0 {
            let k = choose|i: int| 0 <= i < t.len() && #[trigger] t[i].spec_id() == max_id(t);
            assert(s[k] == t[k]);
            assert(s[k].spec_id() == max_id(s));
        } else {
            assert(s[0].spec_id() == max_id(s));
        }
        assert(s[s.len() - 1] == s.last());
    }
}

/// The largest id of the list, 0 when it is empty.
pub fn max_id_of<T: Named>(items: &Vec<T>) -> (r: u32)
    ensures
        r == max_id(items@),
{
    let mut m: u32 = 0;
    let mut i: usize = 0;
    while i < items.len()
        invariant
            i <= items.len(),
            m == max_id(items@.subrange(0, i as int)),
        decreases items.len() - i,
    {
        let id = items[i].id();
        proof {
            let s = items@.subrange(0, i + 1);
            assert(s.drop_last() =~= items@.subrange(0, i as int));
            assert(s.last() == items@[i as int]);
        }
        if id > m {
            m = id;
        }
        i = i + 1;
    }
    assert(items@.subrange(0, items.len() as int) =~= items@);
    m
}

/// Index of the first record with this name, if any.
pub fn position_by_name<T: Named>(items: &Vec<T>, name: &str) -> (r: Option<usize>)
    ensures
        match r {
            Some(i) => first_with_name(items@, name@, i as int),
            None => !has_name(items@, name@),
        },
{
    let mut i: usize = 0;
    while i < items.len()
        invariant
            i <= items.len(),
            forall|j: int| 0 <= j < i ==> #[trigger] items@[j].spec_name() != name@,
        decreases items.len() - i,
    {
        if str_eq(items[i].name(), name) {
            return Some(i);
        }
        i = i + 1;
    }
    None
}

/// Index of the first record with this id, if any.
pub fn position_by_id<T: Named>(items: &Vec<T>, id: u32) -> (r: Option<usize>)
    ensures
        match r {
            Some(i) => first_with_id(items@, id, i as int),
            None => !has_id(items@, id),
        },
{
    let mut i: usize = 0;
    while i < items.len()
        invariant
            i <= items.len(),
            forall|j: int| 0 <= j < i ==> #[trigger] items@[j].spec_id() != id,
        decreases items.len() - i,
    {
        if items[i].id() == id {
            return Some(i);
        }
        i = i + 1;
    }
    None
}

/// Whether some record of the list has this name.
pub fn contains_name<T: Named>(items: &Vec<T>, name: &str) -> (r: bool)
    ensures
        r == has_name(items@, name@),
{
    position_by_name(items, name).is_some()
}

/// Removes every record with this name, keeping the others in their order.
pub fn retain_other_names<T: Named>(items: &mut Vec<T>, name: &str)
    ensures
        final(items)@ == without_name(old(items)@, name@),
{
    let ghost orig = old(items)@;
    let n = items.len();
    let mut rest: Vec<T> = Vec::new();
    std::mem::swap(items, &mut rest);
    let mut k: usize = 0;
    while rest.len() > 0
        invariant
            n == orig.len(),
            k + rest@.len() == n,
            rest@ == orig.subrange(k as int, orig.len() as int),
            items@ == without_name(orig.subrange(0, k as int), name@),
        decreases rest@.len(),
    {
        let x = rest.remove(0);
        proof {
            let s = orig.subrange(0, k + 1);
            assert(s.drop_last() =~= orig.subrange(0, k as int));
            assert(s.last() == x);
            reveal(Seq::filter);
        }
        if !str_eq(x.name(), name) {
            items.push(x);
        }
        k = k + 1;
        proof {
            assert(rest@ =~= orig.subrange(k as int, orig.len() as int));
        }
    }
    assert(orig.subrange(0, orig.len() as int) =~= orig);
}

/// No two records share a name.
pub open spec fn names_unique<T: Named>(s: Seq<T>) -> bool {
    forall|i: int, j: int| 0 <= i < j < s.len() ==> #[trigger] s[i].spec_name() != #[trigger] s[j].spec_name()
}

/// No two records share an id.
pub open spec fn ids_unique<T: Named>(s: Seq<T>) -> bool {
    forall|i: int, j: int| 0 <= i < j < s.len() ==> #[trigger] s[i].spec_id() != #[trigger] s[j].spec_id()
}

/// `new` is `old` with one record appended that takes the next id.
pub open spec fn appended_with_next_id<T: Named>(old: Seq<T>, new: Seq<T>) -> bool {
    &&& new.len() == old.len() + 1
    &&& new.subrange(0, old.len() as int) == old
    &&& new.last().spec_id() == next_id(old)
}

/// A record appended with the next id is the one found by that id: no
/// earlier record holds it.
pub proof fn law_added_record_found_by_id<T: Named>(old: Seq<T>, new: Seq<T>)
    requires
        appended_with_next_id(old, new),
    ensures
        first_with_id(new, new.last().spec_id(), old.len() as int),
{
    lemma_max_id(old);
    assert forall|j: int| 0 <= j < old.len() implies #[trigger] new[j].spec_id() != new.last().spec_id() by {
        assert(new[j] == old[j]);
    }
}

/// Appending with the next id keeps ids unique.
pub proof fn law_add_keeps_ids_unique<T: Named>(old: Seq<T>, new: Seq<T>)
    requires
        ids_unique(old),
        appended_with_next_id(old, new),
    ensures
        ids_unique(new),
{
    lemma_max_id(old);
    assert forall|i: int, j: int| 0 <= i < j < new.len() implies #[trigger] new[i].spec_id()
        != #[trigger] new[j].spec_id() by {
        assert(new[i] == old[i]);
        if j < old.len() {
            assert(new[j] == old[j]);
        }
    }
}

/// Appending a record whose name no record has keeps names unique.
pub proof fn law_add_keeps_names_unique<T: Named>(old: Seq<T>, new: Seq<T>)
    requires
        names_unique(old),
        !has_name(old, new.last().spec_name()),
        new.len() == old.len() + 1,
        new.subrange(0, old.len() as int) == old,
    ensures
        names_unique(new),
{
    assert forall|i: int, j: int| 0 <= i < j < new.len() implies #[trigger] new[i].spec_name()
        != #[trigger] new[j].spec_name() by {
        assert(new[i] == old[i]);
        if j < old.len() {
            assert(new[j] == old[j]);
        } else {
            assert(new[j] == new.last());
        }
    }
}

/// After removing a name, no record has it, every record of another name
/// is still there, and nothing else is.
pub proof fn law_remove_effect<T: Named>(s: Seq<T>, name: Seq<char>)
    ensures
        !has_name(without_name(s, name), name),
        forall|i: int| 0 <= i < s.len() && s[i].spec_name() != name ==> without_name(s, name).contains(#[trigger] s[i]),
        forall|x: T| #[trigger] without_name(s, name).contains(x) ==> s.contains(x),
{
    let pred = name_differs::<T>(name);
    broadcast use vstd::seq_lib::group_filter_ensures;
    let r = without_name(s, name);
    if has_name(r, name) {
        let i = choose|i: int| 0 <= i < r.len() && #[trigger] r[i].spec_name() == name;
        assert(pred(r[i]));
    }
    lemma_filter_subset(s, pred);
}

proof fn lemma_filter_subset<T>(s: Seq<T>, pred: spec_fn(T) -> bool)
    ensures
        forall|x: T| #[trigger] s.filter(pred).contains(x) ==> s.contains(x),
    decreases s.len(),
{
    reveal(Seq::filter);
    if s.len() > 0 {
        lemma_filter_subset(s.drop_last(), pred);
        assert forall|x: T| #[trigger] s.filter(pred).contains(x) implies s.contains(x) by {
            let f = s.filter(pred);
            let k = choose|k: int| 0 <= k < f.len() && f[k] == x;
            let g = s.drop_last().filter(pred);
            if pred(s.last()) && k == f.len() - 1 {
                assert(s[s.len() - 1] == x);
            } else {
                assert(g[k] == x);
                assert(g.contains(x));
                let m = choose|m: int| 0 <= m < s.drop_last().len() && s.drop_last()[m] == x;
                assert(s[m] == x);
            }
        }
    }
}

/// Removing a name keeps names unique (and ids unique).
pub proof fn law_remove_keeps_unique<T: Named>(s: Seq<T>, name: Seq<char>)
    ensures
        names_unique(s) ==> names_unique(without_name(s, name)),
        ids_unique(s) ==> ids_unique(without_name(s, name)),
    decreases s.len(),
{
    reveal(Seq::filter);
    if s.len() > 0 {
        let t = s.drop_last();
        law_remove_keep_unique_prefix(s);
        law_remove_keeps_unique(t, name);
        lemma_filter_subset(t, name_differs::<T>(name));
        let r = without_name(s, name);
        let rt = without_name(t, name);
        if s.last().spec_name() != name {
            assert(r == rt.push(s.last()));
            assert forall|i: int, j: int| 0 <= i < j < r.len() && names_unique(s) implies #[trigger] r[i].spec_name()
                != #[trigger] r[j].spec_name() by {
                if j == r.len() - 1 {
                    assert(r[i] == rt[i]);
                    assert(rt.contains(r[i]));
                    let k = choose|k: int| 0 <= k < t.len() && t[k] == r[i];
                    assert(s[k] == t[k]);
                    assert(s[s.len() - 1] == s.last());
                } else {
                    assert(r[i] == rt[i] && r[j] == rt[j]);
                }
            }
            assert forall|i: int, j: int| 0 <= i < j < r.len() && ids_unique(s) implies #[trigger] r[i].spec_id()
                != #[trigger] r[j].spec_id() by {
                if j == r.len() - 1 {
                    assert(r[i] == rt[i]);
                    assert(rt.contains(r[i]));
                    let k = choose|k: int| 0 <= k < t.len() && t[k] == r[i];
                    assert(s[k] == t[k]);
                    assert(s[s.len() - 1] == s.last());
                } else {
                    assert(r[i] == rt[i] && r[j] == rt[j]);
                }
            }
        } else {
            assert(r == rt);
        }
    }
}

proof fn law_remove_keep_unique_prefix<T: Named>(s: Seq<T>)
    requires
        s.len() > 0,
    ensures
        names_unique(s) ==> names_unique(s.drop_last()),
        ids_unique(s) ==> ids_unique(s.drop_last()),
{
    let t = s.drop_last();
    assert forall|i: int, j: int| 0 <= i < j < t.len() && names_unique(s) implies #[trigger] t[i].spec_name()
        != #[trigger] t[j].spec_name() by {
        assert(t[i] == s[i] && t[j] == s[j]);
    }
    assert forall|i: int, j: int| 0 <= i < j < t.len() && ids_unique(s) implies #[trigger] t[i].spec_id()
        != #[trigger] t[j].spec_id() by {
        assert(t[i] == s[i] && t[j] == s[j]);
    }
}

} // verus!
