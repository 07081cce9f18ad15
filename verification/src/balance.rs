use vstd::prelude::*;
use crate::text::chars_to_string;

verus! {

/// Satoshis in one bitcoin: the threshold between the two display regimes.
pub const SATOSHIS_PER_BITCOIN: u64 = 100_000_000;

/// The character for the decimal digit `d` (meaningful for `d < 10`).
pub open spec fn digit_char(d: nat) -> char {
    ((48 + d) as u8) as char
}

/// The decimal digits of `n`, most significant first, with no leading
/// zeros; zero itself is the single digit `0`.
pub open spec fn dec_digits(n: nat) -> Seq<char>
    decreases n,
{
    if n < 10 {
        seq![digit_char(n)]
    } else {
        dec_digits(n / 10).push(digit_char(n % 10))
    }
}

/// Exactly `width` decimal digits of `n`, zero-padded on the left
/// (callers keep `n` below ten to the `width`).
pub open spec fn padded_digits(n: nat, width: nat) -> Seq<char>
    decreases width,
{
    if width == 0 {
        Seq::empty()
    } else {
        padded_digits(n / 10, (width - 1) as nat).push(digit_char(n % 10))
    }
}

/// Digit grouping: one space between clusters of three digits, counted
/// from the least-significant end; a shorter leading cluster stands
/// alone, with no separator before it.
pub open spec fn grouped(s: Seq<char>) -> Seq<char>
    decreases s.len(),
{
    if s.len() <= 3 {
        s
    } else {
        grouped(s.take(s.len() - 3)) + seq![' '] + s.skip(s.len() - 3)
    }
}

/// What `format_btc_balance` renders: at or above one whole bitcoin, the
/// bitcoin sign and the whole-unit value with exactly eight fractional
/// digits; below it, the satoshi glyph and the grouped raw integer.
pub open spec fn spec_format_balance(balance: nat) -> Seq<char> {
    if balance >= SATOSHIS_PER_BITCOIN as nat {
        seq!['₿', ' '] + dec_digits(balance / (SATOSHIS_PER_BITCOIN as nat)) + seq!['.']
            + padded_digits(balance % (SATOSHIS_PER_BITCOIN as nat), 8)
    } else {
        seq!['丰', ' '] + grouped(dec_digits(balance))
    }
}

fn digit_to_char(d: u64) -> (c: char)
    requires
        d < 10,
    ensures
        c == digit_char(d as nat),
{
    ((48 + d) as u8) as char
}

fn push_dec_digits(n: u64, out: &mut Vec<char>)
    ensures
        final(out)@ == old(out)@ + dec_digits(n as nat),
    decreases n,
{
    if n < 10 {
        out.push(digit_to_char(n));
        assert(out@ =~= old(out)@ + dec_digits(n as nat));
    } else {
        push_dec_digits(n / 10, out);
        out.push(digit_to_char(n % 10));
        assert(out@ =~= old(out)@ + dec_digits(n as nat));
    }
}

fn push_padded_digits(n: u64, width: u64, out: &mut Vec<char>)
    ensures
        final(out)@ == old(out)@ + padded_digits(n as nat, width as nat),
    decreases width,
{
    if width > 0 {
        push_padded_digits(n / 10, width - 1, out);
        out.push(digit_to_char(n % 10));
    }
    assert(out@ =~= old(out)@ + padded_digits(n as nat, width as nat));
}

fn push_grouped(digits: &Vec<char>, len: usize, out: &mut Vec<char>)
    requires
        len <= digits.len(),
    ensures
        final(out)@ == old(out)@ + grouped(digits@.take(len as int)),
    decreases len,
{
    if len <= 3 {
        let mut k: usize = 0;
        while k < len
            invariant
                k <= len <= digits.len(),
                out@ == old(out)@ + digits@.take(k as int),
            decreases len - k,
        {
            out.push(digits[k]);
            k = k + 1;
            assert(out@ =~= old(out)@ + digits@.take(k as int));
        }
    } else {
        push_grouped(digits, len - 3, out);
        assert(digits@.take(len as int).take(len - 3) =~= digits@.take(len - 3));
        out.push(' ');
        out.push(digits[len - 3]);
        out.push(digits[len - 2]);
        out.push(digits[len - 1]);
        assert(out@ =~= old(out)@ + grouped(digits@.take(len as int)));
    }
}

/// Renders a satoshi balance for display: `"₿ <btc>.<8 digits>"` at or
/// above one whole bitcoin, `"丰 <grouped satoshis>"` below it.
pub fn format_btc_balance(balance: u64) -> (r: String)
    ensures
        r@ == spec_format_balance(balance as nat),
{
    let mut out: Vec<char> = Vec::new();
    if balance >= SATOSHIS_PER_BITCOIN {
        out.push('₿');
        out.push(' ');
        push_dec_digits(balance / SATOSHIS_PER_BITCOIN, &mut out);
        out.push('.');
        push_padded_digits(balance % SATOSHIS_PER_BITCOIN, 8, &mut out);
        assert(out@ =~= spec_format_balance(balance as nat));
    } else {
        let mut digits: Vec<char> = Vec::new();
        push_dec_digits(balance, &mut digits);
        out.push('丰');
        out.push(' ');
        let n = digits.len();
        assert(digits@.take(n as int) =~= digits@);
        push_grouped(&digits, n, &mut out);
        assert(out@ =~= spec_format_balance(balance as nat));
    }
    chars_to_string(&out)
}

/// The display regime is settled by the one-bitcoin threshold alone: at or
/// above it the rendering opens with the bitcoin sign, below it with the
/// satoshi glyph, and no balance renders ambiguously.
pub proof fn lemma_format_regime(balance: nat)
    ensures
        spec_format_balance(balance).len() > 0,
        (spec_format_balance(balance)[0] == '₿') <==> balance >= SATOSHIS_PER_BITCOIN as nat,
        (spec_format_balance(balance)[0] == '丰') <==> balance < SATOSHIS_PER_BITCOIN as nat,
{
}

} // verus!
