//! Operations on text, each stated over the text's characters.
use vstd::prelude::*;

verus! {

broadcast use vstd::string::group_string_axioms;

/// Whether `c` carries the Unicode `White_Space` property.
pub open spec fn is_white_space(c: char) -> bool {
    let n = c as u32;
    ||| 0x09 <= n <= 0x0d
    ||| n == 0x20
    ||| n == 0x85
    ||| n == 0xa0
    ||| n == 0x1680
    ||| 0x2000 <= n <= 0x200a
    ||| n == 0x2028
    ||| n == 0x2029
    ||| n == 0x202f
    ||| n == 0x205f
    ||| n == 0x3000
}

/// `s` without its white-space characters, the others in order.
pub open spec fn strip_white_space(s: Seq<char>) -> Seq<char>
    decreases s.len(),
{
    if s.len() == 0 {
        Seq::empty()
    } else if is_white_space(s.last()) {
        strip_white_space(s.drop_last())
    } else {
        strip_white_space(s.drop_last()).push(s.last())
    }
}

/// Whether `c` is white space (`char::is_whitespace`).
pub fn is_whitespace(c: char) -> (r: bool)
    ensures
        r == is_white_space(c),
{
    let n = c as u32;
    (0x09 <= n && n <= 0x0d) || n == 0x20 || n == 0x85 || n == 0xa0 || n == 0x1680 || (0x2000
        <= n && n <= 0x200a) || n == 0x2028 || n == 0x2029 || n == 0x202f || n == 0x205f || n
        == 0x3000
}

/// An owned copy of `s`.
pub fn owned(s: &str) -> (r: String)
    ensures
        r@ == s@,
{
    s.to_string()
}

/// The result of lowercasing `s` as `str::to_lowercase` does.
pub uninterp spec fn lowercase(s: Seq<char>) -> Seq<char>;

/// Every character of `s` is ASCII.
pub open spec fn is_ascii_text(s: Seq<char>) -> bool
    decreases s.len(),
{
    s.len() == 0 || ((s[0] as u32) < 128 && is_ascii_text(s.skip(1)))
}

/// `c` with an ASCII capital letter turned into its small letter.
pub open spec fn ascii_lower_char(c: char) -> char {
    if 'A' <= c && c <= 'Z' {
        ((c as u32) + 32) as char
    } else {
        c
    }
}

/// `s` with its ASCII capital letters turned into small letters.
pub open spec fn ascii_lowercase(s: Seq<char>) -> Seq<char> {
    s.map_values(|c: char| ascii_lower_char(c))
}

/// Lowercases `s` (`str::to_lowercase`): the result is `lowercase(s@)`. On
/// ASCII text, Unicode lowercasing turns each capital letter into its small
/// letter and leaves every other character as it is.
#[verifier::external_body]
pub(crate) fn to_lowercase(s: &str) -> (r: String)
    ensures
        r@ == lowercase(s@),
        r@ == (if is_ascii_text(s@) {
            ascii_lowercase(s@)
        } else {
            lowercase(s@)
        }),
{
    s.to_lowercase()
}

/// The result of uppercasing `s` as `str::to_uppercase` does.
pub uninterp spec fn uppercase(s: Seq<char>) -> Seq<char>;

/// Uppercases `s` (`str::to_uppercase`): the result is `uppercase(s@)`.
#[verifier::external_body]
pub(crate) fn to_uppercase(s: &str) -> (r: String)
    ensures
        r@ == uppercase(s@),
{
    s.to_uppercase()
}

/// Whether two strings are equal (`str`'s `==`).
#[verifier::external_body]
pub(crate) fn str_equal(a: &str, b: &str) -> (r: bool)
    ensures
        r == (a@ == b@),
{
    a == b
}

/// Appends one character to a string (`String::push`).
#[verifier::external_body]
pub(crate) fn push_char(s: &mut String, c: char)
    ensures
        final(s)@ == old(s)@.push(c),
{
    s.push(c);
}

/// `s` with its white space taken out.
pub fn remove_whitespace(s: &str) -> (r: String)
    ensures
        r@ == strip_white_space(s@),
{
    let mut out = String::new();
    for c in it: s.chars()
        invariant
            it.seq() == s@,
            out@ == strip_white_space(s@.take(it.index())),
    {
        assert(s@.take(it.index() + 1).drop_last() == s@.take(it.index()));
        if !is_whitespace(c) {
            push_char(&mut out, c);
        }
    }
    assert(s@.take(s@.len() as int) == s@);
    out
}

/// The characters of `s`, in a vector.
pub fn char_vec(s: &str) -> (r: Vec<char>)
    ensures
        r@ == s@,
{
    let mut r: Vec<char> = Vec::new();
    for c in it: s.chars()
        invariant
            it.seq() == s@,
            r@ == s@.take(it.index()),
    {
        r.push(c);
        assert(s@.take(it.index() + 1) =~= s@.take(it.index()).push(c));
    }
    assert(s@.take(s@.len() as int) =~= s@);
    r
}

/// `a` followed by `b`.
pub fn concatenate(a: &str, b: &str) -> (r: String)
    ensures
        r@ == a@ + b@,
{
    let mut r = owned(a);
    append_str(&mut r, b);
    r
}

/// Appends `b` to `s` (`String::push_str`).
#[verifier::external_body]
pub(crate) fn append_str(s: &mut String, b: &str)
    ensures
        final(s)@ == old(s)@ + b@,
{
    s.push_str(b);
}

/// `s` with every occurrence of `p` replaced by `r`, occurrences found from the
/// left without overlapping (as `str::replace` and `str::split` find them).
pub open spec fn replace_all(s: Seq<char>, p: Seq<char>, r: Seq<char>) -> Seq<char>
    decreases s.len(),
{
    if p.len() == 0 || s.len() == 0 {
        s
    } else if p.len() <= s.len() && s.take(p.len() as int) == p {
        r + replace_all(s.skip(p.len() as int), p, r)
    } else {
        seq![s[0]] + replace_all(s.skip(1), p, r)
    }
}

/// `s` contains `p` as a contiguous part.
pub open spec fn contains_seq(s: Seq<char>, p: Seq<char>) -> bool {
    exists|i: int| 0 <= i && i + p.len() <= s.len() && #[trigger] s.subrange(i, i + p.len()) == p
}

/// Whether `p` occurs in `v` at position `i`.
fn occurs_at(v: &Vec<char>, i: usize, p: &Vec<char>) -> (r: bool)
    requires
        i + p@.len() <= v@.len(),
    ensures
        r == (v@.subrange(i as int, i + p@.len()) == p@),
{
    let vl = v.len();
    let mut k: usize = 0;
    while k < p.len()
        invariant
            vl == v@.len(),
            i + p@.len() <= v@.len(),
            k <= p@.len(),
            forall|j: int| 0 <= j < k ==> v@[i + j] == p@[j],
        decreases p@.len() - k,
    {
        if v[i + k] != p[k] {
            assert(v@.subrange(i as int, i + p@.len())[k as int] != p@[k as int]);
            return false;
        }
        k = k + 1;
    }
    assert(v@.subrange(i as int, i + p@.len()) =~= p@);
    true
}

/// `s` with every occurrence of `pat` replaced by `rep` (`str::replace`).
pub(crate) fn replace_str(s: &str, pat: &str, rep: &str) -> (r: String)
    requires
        pat@.len() > 0,
    ensures
        r@ == replace_all(s@, pat@, rep@),
{
    let sv = char_vec(s);
    let pv = char_vec(pat);
    let n = sv.len();
    let m = pv.len();
    let mut out = String::new();
    let mut i: usize = 0;
    assert(s@.skip(0) =~= s@);
    while i < n
        invariant
            sv@ == s@,
            pv@ == pat@,
            n == s@.len(),
            m == pat@.len(),
            m > 0,
            i <= n,
            replace_all(s@, pat@, rep@) == out@ + replace_all(s@.skip(i as int), pat@, rep@),
        decreases n - i,
    {
        let ghost rest = s@.skip(i as int);
        if m <= n - i && occurs_at(&sv, i, &pv) {
            proof {
                assert(rest.take(m as int) =~= s@.subrange(i as int, i + m));
                assert(rest.skip(m as int) =~= s@.skip(i + m));
            }
            append_str(&mut out, rep);
            i = i + m;
        } else {
            proof {
                if m <= n - i {
                    assert(rest.take(m as int) =~= s@.subrange(i as int, i + m));
                }
                assert(rest.skip(1) =~= s@.skip(i + 1));
                assert(rest[0] == sv@[i as int]);
            }
            push_char(&mut out, sv[i]);
            i = i + 1;
        }
    }
    assert(s@.skip(n as int) =~= Seq::<char>::empty());
    assert(out@ + Seq::<char>::empty() =~= out@);
    out
}

/// Whether `p` occurs in `s` (`str::contains`).
pub fn contains_str(s: &str, p: &str) -> (r: bool)
    ensures
        r == contains_seq(s@, p@),
{
    let sv = char_vec(s);
    let pv = char_vec(p);
    let n = sv.len();
    let m = pv.len();
    if m > n {
        return false;
    }
    if m == 0 {
        assert(s@.subrange(0, 0 + p@.len() as int) =~= p@);
        return true;
    }
    let mut i: usize = 0;
    while i <= n - m
        invariant
            sv@ == s@,
            pv@ == p@,
            n == s@.len(),
            m == p@.len(),
            0 < m <= n,
            i <= n - m + 1,
            forall|j: int| 0 <= j < i ==> #[trigger] s@.subrange(j, j + m) != p@,
        decreases n - m + 1 - i,
    {
        if occurs_at(&sv, i, &pv) {
            return true;
        }
        i = i + 1;
    }
    false
}

/// The first `n` characters of `s` (all of them when it is shorter).
pub fn take_chars(s: &str, n: usize) -> (r: String)
    ensures
        r@ == (if n <= s@.len() {
            s@.take(n as int)
        } else {
            s@
        }),
{
    let mut out = String::new();
    for c in it: s.chars()
        invariant
            it.seq() == s@,
            out@ == (if n <= it.index() {
                s@.take(n as int)
            } else {
                s@.take(it.index())
            }),
    {
        if out.as_str().unicode_len() < n {
            push_char(&mut out, c);
            assert(s@.take(it.index() + 1) =~= s@.take(it.index()).push(c));
        }
    }
    assert(s@.take(s@.len() as int) =~= s@);
    out
}

/// The part of `s` after its last `c`; all of `s` when it holds no `c`.
pub open spec fn after_last(s: Seq<char>, c: char) -> Seq<char>
    decreases s.len(),
{
    if s.len() == 0 {
        Seq::empty()
    } else if s.last() == c {
        Seq::empty()
    } else {
        after_last(s.drop_last(), c).push(s.last())
    }
}

/// The part of `s` before its first `c`; all of `s` when it holds no `c`.
pub open spec fn before_first(s: Seq<char>, c: char) -> Seq<char>
    decreases s.len(),
{
    if s.len() == 0 {
        Seq::empty()
    } else if s[0] == c {
        Seq::empty()
    } else {
        seq![s[0]] + before_first(s.skip(1), c)
    }
}

/// The last piece of `s` split at `c` (`s.split(c).last()`).
pub fn last_piece(s: &str, c: char) -> (r: String)
    ensures
        r@ == after_last(s@, c),
{
    let mut out = String::new();
    for d in it: s.chars()
        invariant
            it.seq() == s@,
            out@ == after_last(s@.take(it.index()), c),
    {
        assert(s@.take(it.index() + 1).drop_last() =~= s@.take(it.index()));
        if d == c {
            out = String::new();
        } else {
            push_char(&mut out, d);
        }
    }
    assert(s@.take(s@.len() as int) =~= s@);
    out
}

/// The first piece of `s` split at `c` (`s.split(c).next()`).
pub fn first_piece(s: &str, c: char) -> (r: String)
    ensures
        r@ == before_first(s@, c),
{
    let sv = char_vec(s);
    let mut out = String::new();
    let mut i: usize = 0;
    assert(s@.skip(0) =~= s@);
    while i < sv.len()
        invariant
            sv@ == s@,
            i <= s@.len(),
            before_first(s@, c) == out@ + before_first(s@.skip(i as int), c),
        decreases s@.len() - i,
    {
        if sv[i] == c {
            assert(s@.skip(i as int)[0] == c);
            assert(out@ + Seq::<char>::empty() =~= out@);
            return out;
        }
        assert(s@.skip(i as int).skip(1) =~= s@.skip(i + 1));
        assert(s@.skip(i as int)[0] == sv@[i as int]);
        push_char(&mut out, sv[i]);
        assert(out@ + before_first(s@.skip(i + 1), c) =~= (out@.drop_last() + seq![sv@[i as int]]) + before_first(s@.skip(i + 1), c));
        i = i + 1;
    }
    assert(s@.skip(i as int) =~= Seq::<char>::empty());
    assert(out@ + Seq::<char>::empty() =~= out@);
    out
}

/// The part of `s` after its first `c`, or `None` when it holds no `c`.
pub open spec fn after_first(s: Seq<char>, c: char) -> Option<Seq<char>>
    decreases s.len(),
{
    if s.len() == 0 {
        None
    } else if s[0] == c {
        Some(s.skip(1))
    } else {
        after_first(s.skip(1), c)
    }
}

/// The part of `s` after its first `c`, or `None` when it holds no `c`.
pub fn after_first_piece(s: &str, c: char) -> (r: Option<String>)
    ensures
        match r {
            Some(t) => after_first(s@, c) == Some(t@),
            None => after_first(s@, c) is None,
        },
{
    let sv = char_vec(s);
    let n = sv.len();
    let mut i: usize = 0;
    assert(s@.skip(0) =~= s@);
    while i < n
        invariant
            sv@ == s@,
            n == s@.len(),
            i <= n,
            after_first(s@, c) == after_first(s@.skip(i as int), c),
        decreases n - i,
    {
        assert(s@.skip(i as int)[0] == sv@[i as int]);
        assert(s@.skip(i as int).skip(1) =~= s@.skip(i + 1));
        if sv[i] == c {
            let mut out = String::new();
            let mut j: usize = i + 1;
            while j < n
                invariant
                    sv@ == s@,
                    n == s@.len(),
                    i < n,
                    i + 1 <= j <= n,
                    out@ == s@.subrange(i + 1, j as int),
                decreases n - j,
            {
                push_char(&mut out, sv[j]);
                assert(s@.subrange(i + 1, j + 1) =~= s@.subrange(i + 1, j as int).push(sv@[j as int]));
                j = j + 1;
            }
            assert(s@.subrange(i + 1, n as int) =~= s@.skip(i + 1));
            return Some(out);
        }
        i = i + 1;
    }
    assert(s@.skip(n as int) =~= Seq::<char>::empty());
    None
}

} // verus!
