//! Character-level helpers: case normalization, whitespace, field splitting
//! and comment detection for raw source lines.

use vstd::prelude::*;
use vstd::string::StrSliceExecFns;

verus! {

/// Whitespace for the purposes of field splitting: blank, tab, CR and LF.
pub open spec fn is_space(c: char) -> bool {
    c == ' ' || c == '\t' || c == '\r' || c == '\n'
}

/// Upper-cases one character; only ASCII letters are affected.
pub open spec fn spec_to_upper(c: char) -> char {
    if 'a' <= c && c <= 'z' {
        (((c as u8) - 32) as char)
    } else {
        c
    }
}

/// The view of a line upper-cased character by character.
pub open spec fn upper(s: Seq<char>) -> Seq<char> {
    s.map_values(|c: char| spec_to_upper(c))
}

/// A line is a comment when its first non-blank character is `.`.
pub open spec fn is_comment_line(s: Seq<char>) -> bool
    decreases s.len(),
{
    if s.len() == 0 {
        false
    } else if is_space(s[0]) {
        is_comment_line(s.drop_first())
    } else {
        s[0] == '.'
    }
}

/// The whitespace-separated fields of a line, in order.
pub open spec fn split_ws(s: Seq<char>) -> Seq<Seq<char>>
    decreases s.len(),
{
    if s.len() == 0 {
        seq![]
    } else if is_space(s[0]) {
        split_ws(s.drop_first())
    } else {
        let rest = split_ws(s.drop_first());
        if s.len() > 1 && !is_space(s[1]) {
            seq![seq![s[0]] + rest[0]] + rest.drop_first()
        } else {
            seq![seq![s[0]]] + rest
        }
    }
}

/// Relies on `String`'s `FromIterator<char>` implementation (`collect`):
/// collecting characters yields exactly those characters in order.
#[verifier::external_body]
pub(crate) fn string_from_chars(v: &Vec<char>) -> (s: String)
    ensures
        s@ == v@,
{
    v.iter().collect()
}

pub fn is_space_char(c: char) -> (r: bool)
    ensures
        r == is_space(c),
{
    c == ' ' || c == '\t' || c == '\r' || c == '\n'
}

pub fn to_upper_char(c: char) -> (r: char)
    ensures
        r == spec_to_upper(c),
{
    if 'a' <= c && c <= 'z' {
        ((c as u8) - 32) as char
    } else {
        c
    }
}

/// The characters of `s`, upper-cased.
pub fn upper_chars(s: &str) -> (r: Vec<char>)
    ensures
        r@ == upper(s@),
{
    let n = s.unicode_len();
    let mut r: Vec<char> = Vec::new();
    let mut i: usize = 0;
    while i < n
        invariant
            n == s@.len(),
            i <= n,
            r@.len() == i,
            forall|j: int| 0 <= j < i ==> r@[j] == spec_to_upper(s@[j]),
        decreases n - i,
    {
        r.push(to_upper_char(s.get_char(i)));
        i += 1;
    }
    proof {
        assert(r@ =~= upper(s@));
    }
    r
}

/// Appends the characters of `s` to `out`.
pub fn push_str_chars(out: &mut Vec<char>, s: &str)
    ensures
        final(out)@ == old(out)@ + s@,
{
    let n = s.unicode_len();
    let mut i: usize = 0;
    while i < n
        invariant
            n == s@.len(),
            i <= n,
            out@ == old(out)@ + s@.subrange(0, i as int),
        decreases n - i,
    {
        out.push(s.get_char(i));
        proof {
            assert(old(out)@ + s@.subrange(0, i + 1 as int) =~= (old(out)@ + s@.subrange(
                0,
                i as int,
            )).push(s@[i as int]));
        }
        i += 1;
    }
    proof {
        assert(s@.subrange(0, n as int) =~= s@);
    }
}

/// Character-by-character string equality.
pub fn str_eq(a: &str, b: &str) -> (r: bool)
    ensures
        r <==> a@ == b@,
{
    let alen = a.unicode_len();
    let blen = b.unicode_len();
    if alen != blen {
        return false;
    }
    let mut i: usize = 0;
    while i < alen
        invariant
            alen == a@.len(),
            blen == b@.len(),
            alen == blen,
            i <= alen,
            forall|j: int| 0 <= j < i ==> a@[j] == b@[j],
        decreases alen - i,
    {
        if a.get_char(i) != b.get_char(i) {
            return false;
        }
        i += 1;
    }
    proof {
        assert(a@ =~= b@);
    }
    true
}

/// Whether the first non-blank character of `s` is the comment marker.
pub fn line_is_comment(s: &str) -> (r: bool)
    ensures
        r == is_comment_line(s@),
{
    let n = s.unicode_len();
    let mut i: usize = 0;
    proof {
        assert(s@.subrange(0, n as int) =~= s@);
    }
    while i < n
        invariant
            n == s@.len(),
            i <= n,
            is_comment_line(s@) == is_comment_line(s@.subrange(i as int, n as int)),
        decreases n - i,
    {
        let c = s.get_char(i);
        if !is_space_char(c) {
            return c == '.';
        }
        proof {
            assert(s@.subrange(i as int, n as int).drop_first() =~= s@.subrange(
                i + 1 as int,
                n as int,
            ));
        }
        i += 1;
    }
    false
}

/// Unfolding a leading token: if the first `k` characters of `s` are
/// non-blank and the token ends there (end of line or a blank), the fields of
/// `s` are that token followed by the fields of the remainder.
proof fn lemma_split_ws_token(s: Seq<char>, k: int)
    requires
        0 < k <= s.len(),
        forall|m: int| 0 <= m < k ==> !is_space(s[m]),
        k == s.len() || is_space(s[k]),
    ensures
        split_ws(s) =~~= seq![s.subrange(0, k)] + split_ws(s.subrange(k, s.len() as int)),
    decreases k,
{
    let rest = split_ws(s.drop_first());
    if k == 1 {
        if s.len() > 1 {
            assert(is_space(s[1]));
            assert(split_ws(s) == seq![seq![s[0]]] + rest);
            assert(s.drop_first() =~= s.subrange(1, s.len() as int));
            assert(seq![s[0]] =~= s.subrange(0, 1));
        } else {
            assert(split_ws(s) == seq![seq![s[0]]] + rest);
            assert(s.drop_first() =~= s.subrange(1, s.len() as int));
            assert(seq![s[0]] =~= s.subrange(0, 1));
        }
    } else {
        let t = s.drop_first();
        assert(!is_space(s[1]));
        lemma_split_ws_token(t, k - 1);
        assert(split_ws(s) == seq![seq![s[0]] + rest[0]] + rest.drop_first());
        assert(rest =~~= seq![t.subrange(0, k - 1)] + split_ws(t.subrange(k - 1, t.len() as int)));
        assert(rest[0] == t.subrange(0, k - 1));
        assert(seq![s[0]] + t.subrange(0, k - 1) =~= s.subrange(0, k));
        assert(rest.drop_first() =~~= split_ws(t.subrange(k - 1, t.len() as int)));
        assert(t.subrange(k - 1, t.len() as int) =~= s.subrange(k, s.len() as int));
    }
}

/// The fields of `s` starting at position `i`.
fn split_from(s: &Vec<char>, i: usize) -> (r: Vec<String>)
    requires
        i <= s@.len(),
    ensures
        r.deep_view() =~~= split_ws(s@.subrange(i as int, s@.len() as int)),
    decreases s@.len() - i,
{
    let n = s.len();
    if i == n {
        let r: Vec<String> = Vec::new();
        proof {
            assert(s@.subrange(i as int, n as int) =~= Seq::<char>::empty());
        }
        r
    } else if is_space_char(s[i]) {
        let r = split_from(s, i + 1);
        proof {
            assert(s@.subrange(i as int, n as int).drop_first() =~= s@.subrange(
                i + 1 as int,
                n as int,
            ));
        }
        r
    } else {
        let mut j: usize = i + 1;
        while j < n && !is_space_char(s[j])
            invariant
                i < j <= n,
                n == s@.len(),
                forall|m: int| i <= m < j ==> !is_space(s@[m]),
            decreases n - j,
        {
            j += 1;
        }
        let mut tok: Vec<char> = Vec::new();
        let mut m: usize = i;
        while m < j
            invariant
                i <= m <= j <= n,
                n == s@.len(),
                tok@ == s@.subrange(i as int, m as int),
            decreases j - m,
        {
            tok.push(s[m]);
            proof {
                assert(s@.subrange(i as int, m + 1 as int) =~= s@.subrange(i as int, m as int).push(
                    s@[m as int],
                ));
            }
            m += 1;
        }
        let tok_s = string_from_chars(&tok);
        let mut r = split_from(s, j);
        r.insert(0, tok_s);
        proof {
            let sub = s@.subrange(i as int, n as int);
            lemma_split_ws_token(sub, j - i);
            assert(sub.subrange(0, j - i) =~= s@.subrange(i as int, j as int));
            assert(sub.subrange(j - i, sub.len() as int) =~= s@.subrange(j as int, n as int));
            assert(j < n ==> is_space(sub[j - i]));
        }
        r
    }
}

/// An element-for-element copy of a string list.
pub fn clone_strings(v: &Vec<String>) -> (r: Vec<String>)
    ensures
        r@ == v@,
{
    let mut r: Vec<String> = Vec::new();
    let mut i: usize = 0;
    while i < v.len()
        invariant
            i <= v@.len(),
            r@ == v@.subrange(0, i as int),
        decreases v@.len() - i,
    {
        r.push(v[i].clone());
        proof {
            assert(v@.subrange(0, i + 1) =~= v@.subrange(0, i as int).push(v@[i as int]));
        }
        i += 1;
    }
    proof {
        assert(v@.subrange(0, v@.len() as int) =~= v@);
    }
    r
}

/// The whitespace-separated fields of `s`, in order, as owned strings.
pub fn split_fields(s: &Vec<char>) -> (r: Vec<String>)
    ensures
        r.deep_view() =~~= split_ws(s@),
{
    let r = split_from(s, 0);
    proof {
        assert(s@.subrange(0, s@.len() as int) =~= s@);
    }
    r
}

} // verus!
