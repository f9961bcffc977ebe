//! Numeric field codecs: signed integers and decimal numbers as they appear
//! in the text format, with parsing and rendering tied to one another by
//! round-trip lemmas.

use vstd::prelude::*;

verus! {

pub open spec fn is_digit(c: char) -> bool {
    '0' as u32 <= c as u32 <= '9' as u32
}

pub open spec fn digit_val(c: char) -> nat {
    (c as u32 - '0' as u32) as nat
}

pub open spec fn all_digits(s: Seq<char>) -> bool {
    forall|i: int| 0 <= i < s.len() ==> is_digit(#[trigger] s[i])
}

/// The value of a digit string read in base ten.
pub open spec fn str_to_nat(s: Seq<char>) -> nat
    decreases s.len(),
{
    if s.len() == 0 {
        0
    } else {
        str_to_nat(s.drop_last()) * 10 + digit_val(s.last())
    }
}

pub open spec fn pow10(k: nat) -> nat
    decreases k,
{
    if k == 0 {
        1
    } else {
        10 * pow10((k - 1) as nat)
    }
}

pub proof fn lemma_pow10_pos(k: nat)
    ensures
        pow10(k) >= 1,
    decreases k,
{
    if k > 0 {
        lemma_pow10_pos((k - 1) as nat);
    }
}

/// Appending digit strings multiplies the prefix by the scale of the suffix.
pub proof fn lemma_str_to_nat_append(a: Seq<char>, b: Seq<char>)
    ensures
        str_to_nat(a + b) == str_to_nat(a) * pow10(b.len()) + str_to_nat(b),
    decreases b.len(),
{
    if b.len() == 0 {
        assert(a + b =~= a);
        assert(pow10(b.len()) == 1);
        assert(str_to_nat(b) == 0);
        assert(str_to_nat(a) * 1 == str_to_nat(a));
    } else {
        lemma_str_to_nat_append(a, b.drop_last());
        assert((a + b).drop_last() =~= a + b.drop_last());
        assert((a + b).last() == b.last());
        assert(str_to_nat(a + b) == (str_to_nat(a) * pow10((b.len() - 1) as nat) + str_to_nat(
            b.drop_last(),
        )) * 10 + digit_val(b.last())) by {
            assert(str_to_nat(a + b) == str_to_nat((a + b).drop_last()) * 10 + digit_val(
                (a + b).last(),
            ));
        }
        assert((str_to_nat(a) * pow10((b.len() - 1) as nat)) * 10 == str_to_nat(a) * pow10(
            b.len(),
        )) by {
            assert(pow10(b.len()) == pow10((b.len() - 1) as nat) * 10) by {
                assert(pow10(b.len()) == 10 * pow10((b.len() - 1) as nat));
            }
            vstd::arithmetic::mul::lemma_mul_is_associative(
                str_to_nat(a) as int,
                pow10((b.len() - 1) as nat) as int,
                10,
            );
        }
        vstd::arithmetic::mul::lemma_mul_is_distributive_add_other_way(
            10,
            (str_to_nat(a) * pow10((b.len() - 1) as nat)) as int,
            str_to_nat(b.drop_last()) as int,
        );
        assert(str_to_nat(b) == str_to_nat(b.drop_last()) * 10 + digit_val(b.last()));
        assert(str_to_nat(a + b) == (str_to_nat(a) * pow10((b.len() - 1) as nat)) * 10
            + str_to_nat(b.drop_last()) * 10 + digit_val(b.last()));
        assert(str_to_nat(a + b) == str_to_nat(a) * pow10(b.len()) + str_to_nat(b));
    }
}

/// A digit string of length `k` denotes a value below `10^k`.
pub proof fn lemma_str_to_nat_bound(s: Seq<char>)
    requires
        all_digits(s),
    ensures
        str_to_nat(s) < pow10(s.len()),
    decreases s.len(),
{
    if s.len() > 0 {
        lemma_str_to_nat_bound(s.drop_last());
        assert(is_digit(s[s.len() - 1]));
        assert(str_to_nat(s.drop_last()) <= pow10((s.len() - 1) as nat) - 1);
        vstd::arithmetic::mul::lemma_mul_inequality(
            str_to_nat(s.drop_last()) as int,
            pow10((s.len() - 1) as nat) - 1,
            10,
        );
    }
}

/// The canonical base-ten digits of `n`: no leading zero except for zero itself.
pub open spec fn dec_digits(n: nat) -> Seq<char>
    decreases n,
{
    if n < 10 {
        seq![digit_char(n % 10)]
    } else {
        dec_digits(n / 10).push(digit_char(n % 10))
    }
}

pub open spec fn digit_char(d: nat) -> char {
    if d == 0 {
        '0'
    } else if d == 1 {
        '1'
    } else if d == 2 {
        '2'
    } else if d == 3 {
        '3'
    } else if d == 4 {
        '4'
    } else if d == 5 {
        '5'
    } else if d == 6 {
        '6'
    } else if d == 7 {
        '7'
    } else if d == 8 {
        '8'
    } else {
        '9'
    }
}

/// Rendering digits and reading them back is the identity.
pub proof fn lemma_dec_digits(n: nat)
    ensures
        all_digits(dec_digits(n)),
        str_to_nat(dec_digits(n)) == n,
        dec_digits(n).len() >= 1,
        n > 0 ==> dec_digits(n)[0] != '0',
        n == 0 ==> dec_digits(n) =~= seq!['0'],
    decreases n,
{
    if n < 10 {
        assert(is_digit(digit_char(n % 10)));
        assert(digit_val(digit_char(n % 10)) == n % 10);
        assert(n % 10 == n);
        let d = dec_digits(n);
        assert(d == seq![digit_char(n % 10)]);
        assert(d.drop_last() =~= Seq::<char>::empty());
        assert(str_to_nat(d) == str_to_nat(d.drop_last()) * 10 + digit_val(d.last()));
        assert(str_to_nat(d) == n);
    } else {
        lemma_dec_digits(n / 10);
        let d = dec_digits(n / 10);
        assert(dec_digits(n) == d.push(digit_char(n % 10)));
        assert(dec_digits(n).drop_last() =~= d);
        assert(is_digit(digit_char(n % 10)));
        assert(digit_val(digit_char(n % 10)) == n % 10);
        vstd::arithmetic::div_mod::lemma_fundamental_div_mod(n as int, 10);
        assert(str_to_nat(dec_digits(n)) == (n / 10) * 10 + n % 10);
        assert(forall|i: int| 0 <= i < d.len() ==> dec_digits(n)[i] == d[i]);
    }
}

/// The count of digits of `n` is `k` exactly when `n` lies in the right decade.
pub proof fn lemma_dec_digits_len(n: nat, k: nat)
    requires
        k >= 1,
        n < pow10(k),
    ensures
        dec_digits(n).len() <= k,
    decreases k,
{
    if n >= 10 {
        assert(pow10(k) == 10 * pow10((k - 1) as nat));
        assert(n / 10 < pow10((k - 1) as nat));
        lemma_dec_digits_len(n / 10, (k - 1) as nat);
    }
}

/// The magnitude of a digit run: `Some` exactly when `s` is a non-empty
/// all-digit string whose value fits in a `u64`.
pub open spec fn spec_parse_u64(s: Seq<char>) -> Option<u64> {
    if s.len() == 0 || !all_digits(s) || str_to_nat(s) > u64::MAX {
        None
    } else {
        Some(str_to_nat(s) as u64)
    }
}

/// Whether `c` is a decimal digit, decided executably.
pub fn is_digit_char(c: char) -> (r: bool)
    ensures
        r == is_digit(c),
{
    let u = c as u32;
    48 <= u && u <= 57
}

/// Reads a non-empty digit run as a `u64`; `None` on a foreign character,
/// an empty string, or overflow.
pub fn parse_u64_str(s: &str) -> (r: Option<u64>)
    ensures
        r == spec_parse_u64(s@),
{
    let n = s.unicode_len();
    if n == 0 {
        return None;
    }
    let mut acc: u64 = 0;
    let mut i: usize = 0;
    while i < n
        invariant
            n == s@.len(),
            0 <= i <= n,
            all_digits(s@.take(i as int)),
            acc == str_to_nat(s@.take(i as int)),
        decreases n - i,
    {
        let c = s.get_char(i);
        if !is_digit_char(c) {
            assert(!all_digits(s@));
            return None;
        }
        let d: u64 = (c as u32 - 48) as u64;
        proof {
            assert(s@.take(i + 1).drop_last() =~= s@.take(i as int));
            assert(s@.take(i + 1).last() == s@[i as int]);
        }
        if acc > (u64::MAX - d) / 10 {
            // The value of the prefix already exceeds the range; the whole
            // string can only be larger.
            proof {
                assert(str_to_nat(s@.take(i + 1)) > u64::MAX);
                let rest = s@.skip(i + 1);
                lemma_str_to_nat_append(s@.take(i + 1), rest);
                assert(s@.take(i + 1) + rest =~= s@);
                lemma_pow10_pos(rest.len());
                vstd::arithmetic::mul::lemma_mul_inequality(
                    1,
                    pow10(rest.len()) as int,
                    str_to_nat(s@.take(i + 1)) as int,
                );
                vstd::arithmetic::mul::lemma_mul_is_commutative(
                    pow10(rest.len()) as int,
                    str_to_nat(s@.take(i + 1)) as int,
                );
                assert(str_to_nat(s@) >= str_to_nat(s@.take(i + 1)));
            }
            return None;
        }
        acc = acc * 10 + d;
        i += 1;
    }
    proof {
        assert(s@.take(n as int) =~= s@);
    }
    Some(acc)
}

/// A signed 32-bit integer: an optional sign followed by a digit run, with
/// the value in range; exactly the strings the format's integer fields allow.
pub open spec fn spec_parse_i32(s: Seq<char>) -> Option<i32> {
    if s.len() > 0 && (s[0] == '-' || s[0] == '+') {
        let mag = spec_parse_mag(s.skip(1));
        if s[0] == '-' {
            match mag {
                Some(m) => if m <= 0x8000_0000 {
                    Some((-(m as int)) as i32)
                } else {
                    None
                },
                None => None,
            }
        } else {
            match mag {
                Some(m) => if m <= 0x7fff_ffff {
                    Some(m as i32)
                } else {
                    None
                },
                None => None,
            }
        }
    } else {
        match spec_parse_mag(s) {
            Some(m) => if m <= 0x7fff_ffff {
                Some(m as i32)
            } else {
                None
            },
            None => None,
        }
    }
}

/// Magnitude of a digit string, `None` above `u64::MAX`; a `u64` overflow is
/// far outside every field's range, so the distinction never shows.
pub open spec fn spec_parse_mag(s: Seq<char>) -> Option<u64> {
    spec_parse_u64(s)
}

/// Reads a signed 32-bit integer field.
pub fn parse_i32_str(s: &str) -> (r: Option<i32>)
    ensures
        r == spec_parse_i32(s@),
{
    let n = s.unicode_len();
    if n > 0 && (s.get_char(0) == '-' || s.get_char(0) == '+') {
        let neg = s.get_char(0) == '-';
        let rest = s.substring_char(1, n);
        assert(rest@ == s@.skip(1));
        match parse_u64_str(rest) {
            Some(m) => {
                if neg {
                    if m <= 0x8000_0000 {
                        Some((-(m as i64)) as i32)
                    } else {
                        None
                    }
                } else {
                    if m <= 0x7fff_ffff {
                        Some(m as i32)
                    } else {
                        None
                    }
                }
            },
            None => None,
        }
    } else {
        match parse_u64_str(s) {
            Some(m) => if m <= 0x7fff_ffff {
                Some(m as i32)
            } else {
                None
            },
            None => None,
        }
    }
}

/// The canonical digits of `v`, with a leading minus sign when negative.
pub open spec fn spec_render_i32(v: int) -> Seq<char> {
    if v < 0 {
        seq!['-'] + dec_digits((-v) as nat)
    } else {
        dec_digits(v as nat)
    }
}

/// Appends the canonical digits of `n` to `out`.
pub fn render_u64(n: u64, out: &mut String)
    ensures
        final(out)@ == old(out)@ + dec_digits(n as nat),
    decreases n,
{
    if n >= 10 {
        render_u64(n / 10, out);
    }
    let d: u64 = n % 10;
    let lit: &str = if d == 0 {
        "0"
    } else if d == 1 {
        "1"
    } else if d == 2 {
        "2"
    } else if d == 3 {
        "3"
    } else if d == 4 {
        "4"
    } else if d == 5 {
        "5"
    } else if d == 6 {
        "6"
    } else if d == 7 {
        "7"
    } else if d == 8 {
        "8"
    } else {
        "9"
    };
    proof {
        reveal_strlit("0");
        reveal_strlit("1");
        reveal_strlit("2");
        reveal_strlit("3");
        reveal_strlit("4");
        reveal_strlit("5");
        reveal_strlit("6");
        reveal_strlit("7");
        reveal_strlit("8");
        reveal_strlit("9");
        assert(lit@ =~= seq![digit_char((n % 10) as nat)]);
        if n >= 10 {
            assert(dec_digits(n as nat) == dec_digits((n as nat) / 10).push(
                digit_char((n as nat) % 10),
            ));
        }
    }
    out.append(lit);
    proof {
        if n < 10 {
            assert(out@ =~= old(out)@ + dec_digits(n as nat));
        } else {
            assert(out@ =~= old(out)@ + dec_digits(n as nat));
        }
    }
}

/// Appends the canonical rendering of `v` to `out`.
pub fn render_i32(v: i32, out: &mut String)
    ensures
        final(out)@ == old(out)@ + spec_render_i32(v as int),
{
    if v < 0 {
        out.append("-");
        let m: u64 = (-(v as i64)) as u64;
        render_u64(m, out);
        proof {
            reveal_strlit("-");
            assert("-"@ =~= seq!['-']);
            assert(out@ =~= old(out)@ + spec_render_i32(v as int));
        }
    } else {
        render_u64(v as u64, out);
    }
}

/// Round trip: parsing the canonical rendering of an integer gives it back.
pub proof fn lemma_i32_round_trip(v: i32)
    ensures
        spec_parse_i32(spec_render_i32(v as int)) == Some(v),
{
    let s = spec_render_i32(v as int);
    if v < 0 {
        let d = dec_digits((-(v as int)) as nat);
        lemma_dec_digits((-(v as int)) as nat);
        assert(s[0] == '-');
        assert(s.skip(1) =~= d);
        assert(str_to_nat(d) <= u64::MAX);
        assert(spec_parse_mag(s.skip(1)) == Some(str_to_nat(d) as u64));
    } else {
        let d = dec_digits(v as nat);
        lemma_dec_digits(v as nat);
        assert(d[0] != '-' && d[0] != '+') by {
            assert(is_digit(d[0]));
        }
        assert(s == d);
        assert(str_to_nat(d) <= u64::MAX);
        assert(spec_parse_mag(s) == Some(str_to_nat(d) as u64));
    }
}

} // verus!

verus! {

/// Characters that can appear in a rendered number: digits, a sign, a dot.
pub open spec fn plain_num_char(c: char) -> bool {
    is_digit(c) || c == '-' || c == '.'
}

/// A rendered-number character collides with none of the format's
/// separators and is no whitespace.
pub proof fn lemma_plain_char_props(c: char)
    requires
        plain_num_char(c),
    ensures
        c != ':' && c != ',' && c != '|' && c != '/' && c != '[' && c != ']',
        !crate::text::is_ws(c),
{
    if is_digit(c) {
        assert(c as u32 != ':' as u32 && c as u32 != ',' as u32 && c as u32 != '|' as u32
            && c as u32 != '/' as u32 && c as u32 != '[' as u32 && c as u32 != ']' as u32);
        assert(c as u32 != ' ' as u32 && c as u32 != '\t' as u32 && c as u32 != '\r' as u32
            && c as u32 != '\n' as u32);
    }
}

/// Every character of a rendered integer is a digit or a sign.
pub proof fn lemma_render_i32_plain(v: int)
    requires
        -0x8000_0000 <= v <= 0x7fff_ffff,
    ensures
        forall|j: int|
            0 <= j < spec_render_i32(v).len() ==> plain_num_char(#[trigger] spec_render_i32(v)[j])
                && spec_render_i32(v)[j] != '.',
        spec_render_i32(v).len() >= 1,
{
    if v < 0 {
        lemma_dec_digits((-v) as nat);
        assert(forall|j: int|
            1 <= j < spec_render_i32(v).len() ==> spec_render_i32(v)[j] == dec_digits(
                (-v) as nat,
            )[j - 1]);
    } else {
        lemma_dec_digits(v as nat);
    }
}

} // verus!

verus! {

/// A rendered integer token is non-empty and free of separators.
pub proof fn lemma_i32_token(v: i32)
    ensures
        spec_render_i32(v as int).len() >= 1,
        forall|j: int|
            0 <= j < spec_render_i32(v as int).len() ==> #[trigger] spec_render_i32(v as int)[j]
                != ',' && spec_render_i32(v as int)[j] != ':' && spec_render_i32(v as int)[j] != '|'
                && !crate::text::is_ws(spec_render_i32(v as int)[j]),
{
    lemma_render_i32_plain(v as int);
    assert forall|j: int| 0 <= j < spec_render_i32(v as int).len() implies #[trigger] spec_render_i32(
        v as int,
    )[j] != ',' && spec_render_i32(v as int)[j] != ':' && spec_render_i32(v as int)[j] != '|'
        && !crate::text::is_ws(spec_render_i32(v as int)[j]) by {
        lemma_plain_char_props(spec_render_i32(v as int)[j]);
    }
}

} // verus!

verus! {

/// Checks that every character of `s` is a decimal digit.
pub fn all_digits_str(s: &str) -> (r: bool)
    ensures
        r == all_digits(s@),
{
    let n = s.unicode_len();
    let mut i: usize = 0;
    while i < n
        invariant
            n == s@.len(),
            0 <= i <= n,
            forall|j: int| 0 <= j < i ==> is_digit(#[trigger] s@[j]),
        decreases n - i,
    {
        if !is_digit_char(s.get_char(i)) {
            return false;
        }
        i += 1;
    }
    true
}

} // verus!
