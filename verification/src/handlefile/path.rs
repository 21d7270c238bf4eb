//! Relative paths of asset files, as `/`-separated segments.
use vstd::prelude::*;
use crate::text::{chars_of, push_char};

verus! {

/// The segments of a path: the pieces between `/` characters.
pub open spec fn segments_of(p: Seq<char>) -> Seq<Seq<char>>
    decreases p.len(),
{
    if p.len() == 0 {
        seq![Seq::empty()]
    } else {
        let s = segments_of(p.drop_last());
        if p.last() == '/' {
            s.push(Seq::empty())
        } else {
            s.update(s.len() - 1, s.last().push(p.last()))
        }
    }
}

/// A segment that names a component: not empty and not `.`.
pub open spec fn names_component(s: Seq<char>) -> bool {
    s.len() > 0 && s != seq!['.']
}

/// The last segment that names a component, if any.
pub open spec fn last_component(segs: Seq<Seq<char>>) -> Option<Seq<char>>
    decreases segs.len(),
{
    if segs.len() == 0 {
        None
    } else if names_component(segs.last()) {
        Some(segs.last())
    } else {
        last_component(segs.drop_last())
    }
}

/// The file name of a path: its last component, unless that is `..`; none
/// when the path has no component.
pub open spec fn file_name_of(p: Seq<char>) -> Option<Seq<char>> {
    match last_component(segments_of(p)) {
        Some(s) => if s == seq!['.', '.'] {
            None
        } else {
            Some(s)
        },
        None => None,
    }
}

/// `file` inside the folder `dir`: `file` alone when `dir` is empty, else
/// `dir` and `file` with one `/` between them.
pub open spec fn joined(dir: Seq<char>, file: Seq<char>) -> Seq<char> {
    if dir.len() == 0 {
        file
    } else if dir.last() == '/' {
        dir + file
    } else {
        dir.push('/') + file
    }
}

/// The path `p` taken from the folder `dir`: `p` itself when it is
/// absolute (starts with `/`), else `p` inside `dir` as `joined` gives it.
pub open spec fn path_join(dir: Seq<char>, p: Seq<char>) -> Seq<char> {
    if p.len() > 0 && p[0] == '/' {
        p
    } else {
        joined(dir, p)
    }
}

proof fn lemma_segments_nonempty(p: Seq<char>)
    ensures
        segments_of(p).len() >= 1,
    decreases p.len(),
{
    if p.len() > 0 {
        lemma_segments_nonempty(p.drop_last());
    }
}

proof fn lemma_last_component_push(segs: Seq<Seq<char>>, s: Seq<char>)
    ensures
        last_component(segs.push(s)) == if names_component(s) {
            Some(s)
        } else {
            last_component(segs)
        },
{
    assert(segs.push(s).drop_last() =~= segs);
}

fn is_component(s: &String) -> (r: bool)
    ensures
        r == names_component(s@),
{
    let v = chars_of(s.as_str());
    if v.len() == 0 {
        false
    } else if v.len() == 1 && v[0] == '.' {
        assert(s@ =~= seq!['.']);
        false
    } else {
        assert(s@ != seq!['.']) by {
            if v.len() == 1 {
                assert(s@[0] != seq!['.'][0]);
            }
        }
        true
    }
}

/// Appends the characters of `t` to `s`.
fn append(s: &mut String, t: &str)
    ensures
        final(s)@ == old(s)@ + t@,
{
    let ghost start = s@;
    for c in it: t.chars()
        invariant
            it.seq() == t@,
            s@ == start + it.seq().take(it.index()),
    {
        proof {
            assert(it.seq().take(it.index() + 1) =~= it.seq().take(it.index()).push(c));
        }
        push_char(s, c);
        proof {
            assert(s@ =~= start + it.seq().take(it.index() + 1));
        }
    }
    assert(t@.take(t@.len() as int) =~= t@);
}

/// The file name of a path, as `file_name_of` gives it.
pub fn file_name(p: &str) -> (r: Option<String>)
    ensures
        match r {
            Some(s) => file_name_of(p@) == Some(s@),
            None => file_name_of(p@) is None,
        },
{
    let mut cur = String::new();
    let mut last: Option<String> = None;
    let ghost mut done: Seq<Seq<char>> = Seq::empty();
    proof {
        assert(segments_of(Seq::<char>::empty()) =~= done.push(cur@));
    }
    for c in it: p.chars()
        invariant
            it.seq() == p@,
            segments_of(it.seq().take(it.index())) == done.push(cur@),
            match last {
                Some(l) => last_component(done) == Some(l@),
                None => last_component(done) is None,
            },
    {
        let ghost prefix = it.seq().take(it.index());
        proof {
            assert(it.seq().take(it.index() + 1) =~= prefix.push(c));
            assert(prefix.push(c).drop_last() =~= prefix);
            lemma_segments_nonempty(prefix);
        }
        if c == '/' {
            let mut finished = String::new();
            std::mem::swap(&mut finished, &mut cur);
            proof {
                lemma_last_component_push(done, finished@);
                assert(segments_of(prefix.push(c)) =~= done.push(finished@).push(cur@));
            }
            if is_component(&finished) {
                last = Some(finished);
            }
            proof {
                done = done.push(finished@);
            }
        } else {
            push_char(&mut cur, c);
            proof {
                assert(segments_of(prefix.push(c)) =~= done.push(cur@));
            }
        }
    }
    proof {
        assert(p@.take(p@.len() as int) =~= p@);
        lemma_last_component_push(done, cur@);
    }
    let found = if is_component(&cur) {
        Some(cur)
    } else {
        last
    };
    match found {
        Some(name) => {
            let v = chars_of(name.as_str());
            if v.len() == 2 && v[0] == '.' && v[1] == '.' {
                assert(name@ =~= seq!['.', '.']);
                None
            } else {
                assert(name@ != seq!['.', '.']) by {
                    if v.len() == 2 {
                        if v[0] != '.' {
                            assert(name@[0] != seq!['.', '.'][0]);
                        } else {
                            assert(name@[1] != seq!['.', '.'][1]);
                        }
                    }
                }
                Some(name)
            }
        },
        None => None,
    }
}

/// The path of `file` inside the folder `dir`, as `joined` gives it.
pub fn join(dir: &str, file: &str) -> (r: String)
    ensures
        r@ == joined(dir@, file@),
{
    let d = chars_of(dir);
    let mut r = dir.to_owned();
    if d.len() > 0 && d[d.len() - 1] != '/' {
        push_char(&mut r, '/');
    }
    append(&mut r, file);
    r
}

/// The path `p` taken from the folder `dir`, as `path_join` gives it.
pub fn join_path(dir: &str, p: &str) -> (r: String)
    ensures
        r@ == path_join(dir@, p@),
{
    let v = chars_of(p);
    if v.len() > 0 && v[0] == '/' {
        p.to_owned()
    } else {
        join(dir, p)
    }
}

} // verus!
