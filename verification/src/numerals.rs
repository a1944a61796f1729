//! Decimal and hexadecimal literals: parsing operand text into values and
//! formatting values as fixed-width upper-case hex digits.

use vstd::prelude::*;
use vstd::string::StrSliceExecFns;

verus! {

pub open spec fn is_dec_digit(c: char) -> bool {
    '0' <= c && c <= '9'
}

pub open spec fn dec_digit_val(c: char) -> nat {
    (c as int - '0' as int) as nat
}

pub open spec fn is_hex_digit(c: char) -> bool {
    is_dec_digit(c) || ('A' <= c && c <= 'F')
}

pub open spec fn hex_digit_val(c: char) -> nat {
    if is_dec_digit(c) {
        dec_digit_val(c)
    } else {
        (c as int - 'A' as int + 10) as nat
    }
}

/// A non-empty run of decimal digits.
pub open spec fn is_dec_str(s: Seq<char>) -> bool {
    s.len() > 0 && forall|i: int| 0 <= i < s.len() ==> is_dec_digit(s[i])
}

/// A non-empty run of upper-case hexadecimal digits.
pub open spec fn is_hex_str(s: Seq<char>) -> bool {
    s.len() > 0 && forall|i: int| 0 <= i < s.len() ==> is_hex_digit(s[i])
}

/// The value of a decimal digit string.
pub open spec fn dec_val(s: Seq<char>) -> nat
    decreases s.len(),
{
    if s.len() == 0 {
        0
    } else {
        dec_val(s.drop_last()) * 10 + dec_digit_val(s.last())
    }
}

/// The value of a hexadecimal digit string.
pub open spec fn hex_val(s: Seq<char>) -> nat
    decreases s.len(),
{
    if s.len() == 0 {
        0
    } else {
        hex_val(s.drop_last()) * 16 + hex_digit_val(s.last())
    }
}

/// The upper-case hex digit for a value below 16.
pub open spec fn hex_digit_char(d: nat) -> char {
    if d < 10 {
        ((48 + d) as u8) as char
    } else {
        ((55 + d) as u8) as char
    }
}

/// `v` written in upper-case hex, zero-padded to at least `w` digits and
/// extended beyond `w` only when the value needs more digits.
pub open spec fn hex_fmt(v: nat, w: nat) -> Seq<char>
    decreases v + w,
{
    if v < 16 && w <= 1 {
        seq![hex_digit_char(v)]
    } else {
        hex_fmt(v / 16, if w <= 1 {
            0
        } else {
            (w - 1) as nat
        }) + seq![hex_digit_char(v % 16)]
    }
}

/// `v` written in decimal with no padding.
pub open spec fn dec_fmt(v: nat) -> Seq<char>
    decreases v,
{
    if v < 10 {
        seq![hex_digit_char(v)]
    } else {
        dec_fmt(v / 10) + seq![hex_digit_char(v % 10)]
    }
}

/// A value below `pow16(w)` formats in exactly `w` digits.
pub open spec fn pow16(w: nat) -> nat
    decreases w,
{
    if w == 0 {
        1
    } else {
        16 * pow16((w - 1) as nat)
    }
}

pub proof fn lemma_hex_fmt_len(v: nat, w: nat)
    requires
        w > 0,
        v < pow16(w),
    ensures
        hex_fmt(v, w).len() == w,
    decreases w,
{
    if v < 16 && w <= 1 {
    } else {
        if w > 1 {
            assert(pow16(w) == 16 * pow16((w - 1) as nat));
            assert(v / 16 < pow16((w - 1) as nat)) by (nonlinear_arith)
                requires
                    v < 16 * pow16((w - 1) as nat),
                    pow16((w - 1) as nat) > 0,
            ;
            lemma_hex_fmt_len(v / 16, (w - 1) as nat);
        } else {
            assert(pow16(1nat) == 16);
            assert(v < 16);
        }
    }
}

fn dec_digit_of(c: char) -> (r: Option<u8>)
    ensures
        match r {
            Some(d) => is_dec_digit(c) && d as nat == dec_digit_val(c) && d < 10,
            None => !is_dec_digit(c),
        },
{
    if '0' <= c && c <= '9' {
        Some((c as u8) - 48)
    } else {
        None
    }
}

fn hex_digit_of(c: char) -> (r: Option<u8>)
    ensures
        match r {
            Some(d) => is_hex_digit(c) && d as nat == hex_digit_val(c) && d < 16,
            None => !is_hex_digit(c),
        },
{
    if '0' <= c && c <= '9' {
        Some((c as u8) - 48)
    } else if 'A' <= c && c <= 'F' {
        Some((c as u8) - 55)
    } else {
        None
    }
}

proof fn lemma_dec_val_extend(s: Seq<char>, i: int)
    requires
        0 <= i < s.len(),
    ensures
        dec_val(s.subrange(0, i + 1)) == dec_val(s.subrange(0, i)) * 10 + dec_digit_val(s[i]),
{
    let t = s.subrange(0, i + 1);
    assert(t.drop_last() =~= s.subrange(0, i));
    assert(t.last() == s[i]);
}

proof fn lemma_hex_val_extend(s: Seq<char>, i: int)
    requires
        0 <= i < s.len(),
    ensures
        hex_val(s.subrange(0, i + 1)) == hex_val(s.subrange(0, i)) * 16 + hex_digit_val(s[i]),
{
    let t = s.subrange(0, i + 1);
    assert(t.drop_last() =~= s.subrange(0, i));
    assert(t.last() == s[i]);
}

proof fn lemma_dec_val_monotone(s: Seq<char>, i: int, j: int)
    requires
        0 <= i <= j <= s.len(),
    ensures
        dec_val(s.subrange(0, i)) <= dec_val(s.subrange(0, j)),
    decreases j - i,
{
    if i < j {
        lemma_dec_val_monotone(s, i, j - 1);
        lemma_dec_val_extend(s, j - 1);
        assert(dec_val(s.subrange(0, j - 1)) * 10 + dec_digit_val(s[j - 1]) >= dec_val(
            s.subrange(0, j - 1),
        )) by (nonlinear_arith);
    }
}

proof fn lemma_hex_val_monotone(s: Seq<char>, i: int, j: int)
    requires
        0 <= i <= j <= s.len(),
    ensures
        hex_val(s.subrange(0, i)) <= hex_val(s.subrange(0, j)),
    decreases j - i,
{
    if i < j {
        lemma_hex_val_monotone(s, i, j - 1);
        lemma_hex_val_extend(s, j - 1);
        assert(hex_val(s.subrange(0, j - 1)) * 16 + hex_digit_val(s[j - 1]) >= hex_val(
            s.subrange(0, j - 1),
        )) by (nonlinear_arith);
    }
}

/// Parses a plain decimal literal; `None` when `s` is not a non-empty digit
/// run or its value does not fit in `usize`.
pub fn parse_dec(s: &str) -> (r: Option<usize>)
    ensures
        match r {
            Some(v) => is_dec_str(s@) && v as nat == dec_val(s@),
            None => !is_dec_str(s@) || dec_val(s@) > usize::MAX,
        },
{
    let n = s.unicode_len();
    if n == 0 {
        return None;
    }
    let mut acc: usize = 0;
    let mut i: usize = 0;
    while i < n
        invariant
            n == s@.len(),
            0 < n,
            i <= n,
            acc as nat == dec_val(s@.subrange(0, i as int)),
            forall|j: int| 0 <= j < i ==> is_dec_digit(s@[j]),
        decreases n - i,
    {
        let c = s.get_char(i);
        match dec_digit_of(c) {
            None => {
                return None;
            },
            Some(d) => {
                proof {
                    lemma_dec_val_extend(s@, i as int);
                }
                let step = match acc.checked_mul(10) {
                    Some(m) => m.checked_add(d as usize),
                    None => None,
                };
                match step {
                    Some(v) => {
                        acc = v;
                    },
                    None => {
                        proof {
                            assert(dec_val(s@.subrange(0, i + 1)) > usize::MAX);
                            lemma_dec_val_monotone(s@, i + 1, n as int);
                            assert(s@.subrange(0, n as int) =~= s@);
                        }
                        return None;
                    },
                }
            },
        }
        i += 1;
    }
    proof {
        assert(s@.subrange(0, n as int) =~= s@);
    }
    Some(acc)
}

/// Parses an upper-case hexadecimal literal; `None` when `s` is not a
/// non-empty hex digit run or its value does not fit in `usize`.
pub fn parse_hex(s: &str) -> (r: Option<usize>)
    ensures
        match r {
            Some(v) => is_hex_str(s@) && v as nat == hex_val(s@),
            None => !is_hex_str(s@) || hex_val(s@) > usize::MAX,
        },
{
    let n = s.unicode_len();
    if n == 0 {
        return None;
    }
    let mut acc: usize = 0;
    let mut i: usize = 0;
    while i < n
        invariant
            n == s@.len(),
            0 < n,
            i <= n,
            acc as nat == hex_val(s@.subrange(0, i as int)),
            forall|j: int| 0 <= j < i ==> is_hex_digit(s@[j]),
        decreases n - i,
    {
        let c = s.get_char(i);
        match hex_digit_of(c) {
            None => {
                return None;
            },
            Some(d) => {
                proof {
                    lemma_hex_val_extend(s@, i as int);
                }
                let step = match acc.checked_mul(16) {
                    Some(m) => m.checked_add(d as usize),
                    None => None,
                };
                match step {
                    Some(v) => {
                        acc = v;
                    },
                    None => {
                        proof {
                            assert(hex_val(s@.subrange(0, i + 1)) > usize::MAX);
                            lemma_hex_val_monotone(s@, i + 1, n as int);
                            assert(s@.subrange(0, n as int) =~= s@);
                        }
                        return None;
                    },
                }
            },
        }
        i += 1;
    }
    proof {
        assert(s@.subrange(0, n as int) =~= s@);
    }
    Some(acc)
}

fn hex_digit_exec(d: u8) -> (r: char)
    requires
        d < 16,
    ensures
        r == hex_digit_char(d as nat),
{
    if d < 10 {
        (48 + d) as char
    } else {
        (55 + d) as char
    }
}

/// Appends `v` in upper-case hex, zero-padded to at least `w` digits.
pub fn push_hex(out: &mut Vec<char>, v: usize, w: usize)
    ensures
        final(out)@ == old(out)@ + hex_fmt(v as nat, w as nat),
    decreases v + w,
{
    if v < 16 && w <= 1 {
        out.push(hex_digit_exec(v as u8));
        proof {
            assert(old(out)@.push(hex_digit_char(v as nat)) =~= old(out)@ + hex_fmt(
                v as nat,
                w as nat,
            ));
        }
    } else {
        let w2 = if w <= 1 {
            0
        } else {
            w - 1
        };
        push_hex(out, v / 16, w2);
        out.push(hex_digit_exec((v % 16) as u8));
        proof {
            assert(old(out)@ + hex_fmt((v / 16) as nat, w2 as nat) + seq![
                hex_digit_char((v % 16) as nat),
            ] =~= old(out)@ + hex_fmt(v as nat, w as nat));
        }
    }
}

/// Appends `v` in decimal.
pub fn push_dec(out: &mut Vec<char>, v: usize)
    ensures
        final(out)@ == old(out)@ + dec_fmt(v as nat),
    decreases v,
{
    if v < 10 {
        out.push(hex_digit_exec(v as u8));
        proof {
            assert(old(out)@.push(hex_digit_char(v as nat)) =~= old(out)@ + dec_fmt(v as nat));
        }
    } else {
        push_dec(out, v / 10);
        out.push(hex_digit_exec((v % 10) as u8));
        proof {
            assert(old(out)@ + dec_fmt((v / 10) as nat) + seq![hex_digit_char((v % 10) as nat)]
                =~= old(out)@ + dec_fmt(v as nat));
        }
    }
}

} // verus!
