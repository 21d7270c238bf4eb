//! File names of assets.
use vstd::prelude::*;
use crate::text::{chars_of, push_char};

verus! {

/// A character that file names may not hold.
pub open spec fn is_forbidden_char(c: char) -> bool {
    c == '/' || c == '\\' || c == ':' || c == '*' || c == '?' || c == '"' || c == '<' || c == '>'
        || c == '|'
}

/// A character with the Unicode White_Space property (what `char::is_whitespace`
/// tests).
pub open spec fn is_whitespace(c: char) -> bool {
    let u = c as u32;
    (0x9 <= u <= 0xd) || u == 0x20 || u == 0x85 || u == 0xa0 || u == 0x1680 || (0x2000 <= u <= 0x200a)
        || u == 0x2028 || u == 0x2029 || u == 0x202f || u == 0x205f || u == 0x3000
}

/// The string with every forbidden character replaced by `_`.
pub open spec fn replace_forbidden(s: Seq<char>) -> Seq<char> {
    s.map_values(|c: char| if is_forbidden_char(c) { '_' } else { c })
}

/// The string without its leading whitespace.
pub open spec fn trim_start(s: Seq<char>) -> Seq<char>
    decreases s.len(),
{
    if s.len() > 0 && is_whitespace(s[0]) {
        trim_start(s.drop_first())
    } else {
        s
    }
}

/// The string without its trailing whitespace.
pub open spec fn trim_end(s: Seq<char>) -> Seq<char>
    decreases s.len(),
{
    if s.len() > 0 && is_whitespace(s.last()) {
        trim_end(s.drop_last())
    } else {
        s
    }
}

/// The string without its leading and trailing whitespace.
pub open spec fn trim(s: Seq<char>) -> Seq<char> {
    trim_end(trim_start(s))
}

/// The name an asset or project gets on disk.
pub open spec fn sanitized(s: Seq<char>) -> Seq<char> {
    trim(replace_forbidden(s))
}

/// The string ends with `suffix`.
pub open spec fn ends_with(s: Seq<char>, suffix: Seq<char>) -> bool {
    suffix.len() <= s.len() && s.subrange(s.len() - suffix.len(), s.len() as int) == suffix
}

/// The file name an asset called `name` is stored under.
pub open spec fn asset_file_name_of(name: Seq<char>) -> Seq<char> {
    if ends_with(name, ".aaa"@) {
        name
    } else {
        name + ".model"@
    }
}

pub(crate) fn is_whitespace_char(c: char) -> (r: bool)
    ensures
        r == is_whitespace(c),
{
    let u = c as u32;
    (0x9 <= u && u <= 0xd) || u == 0x20 || u == 0x85 || u == 0xa0 || u == 0x1680 || (0x2000 <= u
        && u <= 0x200a) || u == 0x2028 || u == 0x2029 || u == 0x202f || u == 0x205f || u == 0x3000
}

/// Replaces `/ \ : * ? " < > |` by `_` and trims surrounding whitespace.
pub fn sanitize_filename(name: &str) -> (r: String)
    ensures
        r@ == sanitized(name@),
{
    let cs = chars_of(name);
    let n = cs.len();
    let mut rep: Vec<char> = Vec::new();
    for i in 0..n
        invariant
            n == cs@.len(),
            cs@ == name@,
            rep@ == replace_forbidden(name@).subrange(0, i as int),
    {
        let c = cs[i];
        let d = if c == '/' || c == '\\' || c == ':' || c == '*' || c == '?' || c == '"' || c == '<'
            || c == '>' || c == '|' {
            '_'
        } else {
            c
        };
        rep.push(d);
        assert(rep@ =~= replace_forbidden(name@).subrange(0, i + 1));
    }
    let ghost s = replace_forbidden(name@);
    assert(rep@ =~= s);
    let mut a: usize = 0;
    while a < n && is_whitespace_char(rep[a])
        invariant
            a <= n,
            n == rep@.len(),
            rep@ == s,
            trim_start(s) == trim_start(s.subrange(a as int, n as int)),
        decreases n - a,
    {
        proof {
            let t = s.subrange(a as int, n as int);
            assert(t.drop_first() =~= s.subrange(a + 1, n as int));
        }
        a = a + 1;
    }
    let ghost st = s.subrange(a as int, n as int);
    assert(trim_start(st) == st);
    let mut b: usize = n;
    while b > a && is_whitespace_char(rep[b - 1])
        invariant
            a <= b <= n,
            n == rep@.len(),
            rep@ == s,
            trim_end(st) == trim_end(s.subrange(a as int, b as int)),
        decreases b,
    {
        proof {
            let t = s.subrange(a as int, b as int);
            assert(t.drop_last() =~= s.subrange(a as int, b - 1));
        }
        b = b - 1;
    }
    let ghost fin = s.subrange(a as int, b as int);
    assert(trim_end(fin) == fin);
    let mut out = String::new();
    let mut k: usize = a;
    while k < b
        invariant
            a <= k <= b <= n,
            n == rep@.len(),
            rep@ == s,
            out@ == s.subrange(a as int, k as int),
        decreases b - k,
    {
        push_char(&mut out, rep[k]);
        k = k + 1;
        assert(out@ =~= s.subrange(a as int, k as int));
    }
    out
}

/// The file name of an asset: kept when it already ends in `.aaa`, else
/// given the `.model` extension.
pub fn asset_file_name(safe_asset_name: &str) -> (r: String)
    ensures
        r@ == asset_file_name_of(safe_asset_name@),
{
    let cs = chars_of(safe_asset_name);
    let n = cs.len();
    let is_aaa = n >= 4 && cs[n - 4] == '.' && cs[n - 3] == 'a' && cs[n - 2] == 'a' && cs[n - 1]
        == 'a';
    proof {
        reveal_strlit(".aaa");
        reveal_strlit(".model");
        let s = safe_asset_name@;
        if n >= 4 {
            let t = s.subrange(n - 4, n as int);
            if is_aaa {
                assert(t =~= ".aaa"@);
            } else {
                assert(t[0] != ".aaa"@[0] || t[1] != ".aaa"@[1] || t[2] != ".aaa"@[2] || t[3]
                    != ".aaa"@[3]);
            }
        }
    }
    if is_aaa {
        safe_asset_name.to_owned()
    } else {
        let mut s = safe_asset_name.to_owned();
        s.append(".model");
        s
    }
}

proof fn lemma_trim_start(x: Seq<char>) -> (k: int)
    ensures
        0 <= k <= x.len(),
        trim_start(x) == x.subrange(k, x.len() as int),
        forall|i: int| 0 <= i < k ==> is_whitespace(#[trigger] x[i]),
        trim_start(x).len() > 0 ==> !is_whitespace(trim_start(x)[0]),
    decreases x.len(),
{
    if x.len() > 0 && is_whitespace(x[0]) {
        let j = lemma_trim_start(x.drop_first());
        assert(x.drop_first().subrange(j, x.drop_first().len() as int) =~= x.subrange(j + 1, x.len() as int));
        assert forall|i: int| 0 <= i < j + 1 implies is_whitespace(#[trigger] x[i]) by {
            if i > 0 {
                assert(x[i] == x.drop_first()[i - 1]);
            }
        }
        j + 1
    } else {
        assert(x.subrange(0, x.len() as int) =~= x);
        0
    }
}

proof fn lemma_trim_end(x: Seq<char>) -> (k: int)
    ensures
        0 <= k <= x.len(),
        trim_end(x) == x.subrange(0, k),
        forall|i: int| k <= i < x.len() ==> is_whitespace(#[trigger] x[i]),
        trim_end(x).len() > 0 ==> !is_whitespace(trim_end(x).last()),
    decreases x.len(),
{
    if x.len() > 0 && is_whitespace(x.last()) {
        let j = lemma_trim_end(x.drop_last());
        assert(x.drop_last().subrange(0, j) =~= x.subrange(0, j));
        assert forall|i: int| j <= i < x.len() implies is_whitespace(#[trigger] x[i]) by {
            if i < x.len() - 1 {
                assert(x[i] == x.drop_last()[i]);
            }
        }
        j
    } else {
        assert(x.subrange(0, x.len() as int) =~= x);
        x.len() as int
    }
}

/// A sanitized name holds no forbidden character and neither starts nor
/// ends with whitespace.
pub proof fn law_sanitized_is_clean(s: Seq<char>)
    ensures
        forall|i: int| 0 <= i < sanitized(s).len() ==> !is_forbidden_char(#[trigger] sanitized(s)[i]),
        sanitized(s).len() > 0 ==> !is_whitespace(sanitized(s)[0]),
        sanitized(s).len() > 0 ==> !is_whitespace(sanitized(s).last()),
{
    let x = replace_forbidden(s);
    let y = trim_start(x);
    let a = lemma_trim_start(x);
    let b = lemma_trim_end(y);
    assert forall|i: int| 0 <= i < sanitized(s).len() implies !is_forbidden_char(#[trigger] sanitized(s)[i]) by {
        assert(sanitized(s)[i] == x[a + i]);
    }
    if sanitized(s).len() > 0 {
        assert(sanitized(s)[0] == y[0]);
    }
}

/// Sanitizing only trims whitespace at both ends and replaces each of the
/// nine characters `/ \ : * ? " < > |` by `_`: the result is a run of the
/// name, found after a leading run of whitespace and before a trailing one,
/// with every other character (`.` among them) kept in place.
pub proof fn law_sanitize_keeps_other_chars(s: Seq<char>) -> (k: int)
    ensures
        0 <= k,
        k + sanitized(s).len() <= s.len(),
        forall|i: int| 0 <= i < k ==> is_whitespace(#[trigger] s[i]),
        forall|i: int| k + sanitized(s).len() <= i < s.len() ==> is_whitespace(#[trigger] s[i]),
        forall|i: int| 0 <= i < sanitized(s).len() ==> {
            let c = #[trigger] s[k + i];
            sanitized(s)[i] == if c == '/' || c == '\\' || c == ':' || c == '*' || c == '?' || c
                == '"' || c == '<' || c == '>' || c == '|' {
                '_'
            } else {
                c
            }
        },
{
    let x = replace_forbidden(s);
    let y = trim_start(x);
    let a = lemma_trim_start(x);
    let b = lemma_trim_end(y);
    let r = sanitized(s);
    assert(r =~= x.subrange(a, a + b));
    assert(!is_whitespace('_'));
    assert forall|i: int| 0 <= i < a implies is_whitespace(#[trigger] s[i]) by {
        assert(is_whitespace(x[i]));
    }
    assert forall|i: int| a + r.len() <= i < s.len() implies is_whitespace(#[trigger] s[i]) by {
        assert(y[i - a] == x[i]);
        assert(is_whitespace(y[i - a]));
    }
    assert forall|i: int| 0 <= i < r.len() implies {
        let c = #[trigger] s[a + i];
        r[i] == if c == '/' || c == '\\' || c == ':' || c == '*' || c == '?' || c == '"' || c == '<'
            || c == '>' || c == '|' {
            '_'
        } else {
            c
        }
    } by {
        assert(r[i] == x[a + i]);
    }
    a
}

/// A name that holds none of the nine replaced characters and neither starts
/// nor ends with whitespace is its own sanitized form (so `Rock.aaa` stays
/// `Rock.aaa`).
pub proof fn law_clean_name_unchanged(s: Seq<char>)
    requires
        forall|i: int| 0 <= i < s.len() ==> {
            let c = #[trigger] s[i];
            !(c == '/' || c == '\\' || c == ':' || c == '*' || c == '?' || c == '"' || c == '<' || c
                == '>' || c == '|')
        },
        s.len() > 0 ==> !is_whitespace(s[0]) && !is_whitespace(s[s.len() - 1]),
    ensures
        sanitized(s) == s,
{
    let k = law_sanitize_keeps_other_chars(s);
    let r = sanitized(s);
    if s.len() > 0 {
        if k > 0 {
            assert(is_whitespace(s[0]));
        }
        if k + r.len() < s.len() {
            assert(is_whitespace(s[s.len() - 1]));
        }
    }
    assert forall|i: int| 0 <= i < r.len() implies r[i] == s[i] by {
        let c = s[k + i];
    }
    assert(r =~= s);
}

} // verus!
