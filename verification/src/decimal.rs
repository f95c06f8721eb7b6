//! Unsigned decimal numerals: what a `SEQUENCE` value holds.
//!
//! A numeral is an optional leading `+` followed by at least one decimal
//! digit; its value must fit an unsigned 32-bit count.  Output spelling never
//! carries the sign or leading zeroes.

use vstd::prelude::*;
use crate::datetime::{digit_char, digit_of, digit_str, digit_val, is_digit, is_digit_char,
    lemma_digit_char_val};

verus! {

pub open spec fn all_digits(s: Seq<char>) -> bool {
    forall|i: int| 0 <= i < s.len() ==> is_digit_char(#[trigger] s[i])
}

/// The number a digit string denotes, most significant digit first.
pub open spec fn dec_val(s: Seq<char>) -> nat
    decreases s.len(),
{
    if s.len() == 0 {
        0
    } else {
        (dec_val(s.drop_last()) * 10 + digit_val(s.last())) as nat
    }
}

/// The digits of the numeral: everything after an optional leading `+`.
pub open spec fn numeral_body(s: Seq<char>) -> Seq<char> {
    if s.len() > 0 && s[0] == '+' {
        s.drop_first()
    } else {
        s
    }
}

/// What parsing a `SEQUENCE` value yields: the denoted number where the text
/// is a numeral whose value fits 32 bits, nothing otherwise.
pub open spec fn spec_parse_u32(s: Seq<char>) -> Option<u32> {
    let b = numeral_body(s);
    if b.len() > 0 && all_digits(b) && dec_val(b) <= u32::MAX {
        Some(dec_val(b) as u32)
    } else {
        None
    }
}

/// A longer prefix of a digit string never denotes a smaller number.
proof fn lemma_dec_val_prefix_le(s: Seq<char>, i: int)
    requires
        0 <= i <= s.len(),
        all_digits(s),
    ensures
        dec_val(s.take(i)) <= dec_val(s),
    decreases s.len() - i,
{
    if i < s.len() {
        assert(s.take(i + 1).drop_last() =~= s.take(i));
        assert(s.take(i + 1).last() == s[i]);
        assert(dec_val(s.take(i + 1)) == dec_val(s.take(i)) * 10 + digit_val(s[i]));
        lemma_dec_val_prefix_le(s, i + 1);
    } else {
        assert(s.take(i) =~= s);
    }
}

/// Parses an unsigned decimal numeral with a 32-bit bound; the strict path
/// for a count that cannot be partially valid.
pub fn parse_u32(s: &str) -> (r: Option<u32>)
    ensures
        r == spec_parse_u32(s@),
{
    let n = s.unicode_len();
    let mut start: usize = 0;
    if n > 0 && s.get_char(0) == '+' {
        start = 1;
    }
    let ghost b = numeral_body(s@);
    proof {
        assert(b =~= s@.skip(start as int));
    }
    if start == n {
        return None;
    }
    let mut acc: u32 = 0;
    let mut i: usize = start;
    while i < n
        invariant
            start <= i <= n,
            n == s@.len(),
            start <= 1,
            b == numeral_body(s@),
            b == s@.skip(start as int),
            all_digits(b.take(i - start)),
            acc as nat == dec_val(b.take(i - start)),
        decreases n - i,
    {
        let c = s.get_char(i);
        if !is_digit(c) {
            proof {
                assert(0 <= i - start < b.len());
                assert(b[i - start] == s@[i as int]);
                assert(!all_digits(b));
            }
            return None;
        }
        let d = digit_of(c);
        if acc > (0xffff_ffffu32 - (d as u32)) / 10 {
            proof {
                assert(b.take(i - start + 1).drop_last() =~= b.take(i - start));
                assert(b.take(i - start + 1).last() == b[i - start]);
                assert(b[i - start] == s@[i as int]);
                assert(dec_val(b.take(i - start + 1)) == (acc as nat) * 10 + (d as nat));
                assert(dec_val(b.take(i - start + 1)) > u32::MAX);
                if all_digits(b) {
                    lemma_dec_val_prefix_le(b, i - start + 1);
                    assert(!(dec_val(b) <= u32::MAX));
                }
            }
            return None;
        }
        proof {
            assert(b.take(i - start + 1).drop_last() =~= b.take(i - start));
            assert(b.take(i - start + 1).last() == b[i - start]);
        }
        acc = acc * 10 + (d as u32);
        i += 1;
    }
    proof {
        assert(b.take(i - start) =~= b);
    }
    Some(acc)
}

/// The output spelling of a count: decimal digits, no sign, no leading zero.
pub open spec fn dec_digits(n: nat) -> Seq<char>
    decreases n,
{
    if n < 10 {
        seq![digit_char(n as int)]
    } else {
        dec_digits(n / 10).push(digit_char((n % 10) as int))
    }
}

/// Renders a count in its output spelling.
pub fn format_u32(n: u32) -> (s: String)
    ensures
        s@ == dec_digits(n as nat),
    decreases n,
{
    if n < 10 {
        let s = digit_str(n as u8).to_owned();
        proof {
            assert(s@ =~= dec_digits(n as nat));
        }
        s
    } else {
        let mut s = format_u32(n / 10);
        s.append(digit_str((n % 10) as u8));
        proof {
            assert(s@ =~= dec_digits(n as nat));
        }
        s
    }
}

/// The output spelling of a count is a plain digit string denoting the count
/// itself.
pub proof fn lemma_dec_digits_val(n: nat)
    ensures
        dec_digits(n).len() >= 1,
        all_digits(dec_digits(n)),
        dec_digits(n)[0] != '+',
        dec_val(dec_digits(n)) == n,
    decreases n,
{
    if n < 10 {
        lemma_digit_char_val(n as int);
        assert(dec_digits(n).drop_last() =~= Seq::<char>::empty());
        assert(dec_val(dec_digits(n)) == dec_val(Seq::<char>::empty()) * 10 + digit_val(
            digit_char(n as int),
        ));
    } else {
        lemma_dec_digits_val(n / 10);
        lemma_digit_char_val((n % 10) as int);
        assert(dec_digits(n).drop_last() =~= dec_digits(n / 10));
        assert(dec_digits(n).last() == digit_char((n % 10) as int));
        assert(dec_val(dec_digits(n)) == dec_val(dec_digits(n / 10)) * 10 + digit_val(
            digit_char((n % 10) as int),
        ));
        assert(forall|i: int| 0 <= i < dec_digits(n).len() ==> is_digit_char(
            #[trigger] dec_digits(n)[i],
        ));
    }
}

/// A count, rendered and parsed back, is itself.
pub proof fn lemma_format_parse_u32(n: u32)
    ensures
        spec_parse_u32(dec_digits(n as nat)) == Some(n),
{
    lemma_dec_digits_val(n as nat);
    assert(numeral_body(dec_digits(n as nat)) == dec_digits(n as nat));
}

} // verus!
