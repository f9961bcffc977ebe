//! The decimal numbers of the text format.
//!
//! Fields such as a timing point's beat length or a command's opacity carry
//! plain decimal literals: an optional sign, integer digits, and an optional
//! fraction.  `Decimal` holds such a value exactly as a scaled integer, so
//! that decoding and re-encoding a document reproduces the same text.

use crate::numeric::all_digits;
use crate::numeric::all_digits_str;
use crate::numeric::dec_digits;
use crate::numeric::digit_char;
use crate::numeric::digit_val;
use crate::numeric::is_digit;
use crate::numeric::lemma_dec_digits;
use crate::numeric::lemma_dec_digits_len;
use crate::numeric::lemma_pow10_pos;
use crate::numeric::lemma_str_to_nat_append;
use crate::numeric::pow10;
use crate::numeric::render_u64;
use crate::numeric::str_to_nat;
use crate::text::spec_find_char;
use crate::text::lemma_find_char;
use crate::text::lemma_find_char_unique;
use crate::text::find_char;
use vstd::prelude::*;

verus! {

/// A signed scaled integer: the value `mantissa / 10^scale`, negated when
/// `neg` is set.  `scale` counts the fraction digits that the textual form
/// shows.
#[derive(Clone, Copy, Debug, PartialEq, Eq, Structural)]
pub struct Decimal {
    pub neg: bool,
    pub mantissa: u64,
    pub scale: u64,
}

/// Canonical form: no trailing zero in the fraction, no negative zero, and a
/// fraction short enough for the mantissa's range.
pub open spec fn dec_valid(d: Decimal) -> bool {
    &&& d.scale > 0 ==> d.mantissa % 10 != 0
    &&& d.mantissa == 0 ==> !d.neg && d.scale == 0
    &&& d.scale <= 19
}

pub open spec fn zeros(k: nat) -> Seq<char> {
    Seq::new(k, |i: int| '0')
}

/// The canonical text of `d`: sign, integer digits, and — when `scale` is
/// positive — a dot followed by exactly `scale` fraction digits.
pub open spec fn spec_render_dec(d: Decimal) -> Seq<char> {
    let p = pow10(d.scale as nat);
    let ip = d.mantissa as nat / p;
    let fp = d.mantissa as nat % p;
    let fd = dec_digits(fp);
    let sign = if d.neg {
        seq!['-']
    } else {
        Seq::<char>::empty()
    };
    if d.scale == 0 {
        sign + dec_digits(d.mantissa as nat)
    } else if fd.len() <= d.scale as nat {
        sign + dec_digits(ip) + seq!['.'] + zeros((d.scale as nat - fd.len()) as nat) + fd
    } else {
        sign + dec_digits(ip) + seq!['.'] + fd
    }
}

/// Removes trailing `'0'` characters.
pub open spec fn strip_zeros_end(s: Seq<char>) -> Seq<char>
    decreases s.len(),
{
    if s.len() > 0 && s.last() == '0' {
        strip_zeros_end(s.drop_last())
    } else {
        s
    }
}

pub proof fn lemma_strip_zeros_end(s: Seq<char>, k: int)
    requires
        0 <= k <= s.len(),
        forall|j: int| k <= j < s.len() ==> s[j] == '0',
        k > 0 ==> s[k - 1] != '0',
    ensures
        strip_zeros_end(s) == s.take(k),
    decreases s.len() - k,
{
    if k == s.len() {
        assert(s.take(k) =~= s);
    } else {
        lemma_strip_zeros_end(s.drop_last(), k);
        assert(s.drop_last().take(k) =~= s.take(k));
    }
}

/// The decimal grammar: an optional sign, then integer digits and an
/// optional dot-separated fraction, at least one digit in all.  The value is
/// canonicalized — trailing fraction zeros dropped, negative zero cleared —
/// and rejected when the significant digits overflow a `u64` or more than 19
/// fraction digits remain.
pub open spec fn spec_parse_dec(s: Seq<char>) -> Option<Decimal> {
    let has_sign = s.len() > 0 && (s[0] == '-' || s[0] == '+');
    let neg = s.len() > 0 && s[0] == '-';
    let t = if has_sign {
        s.skip(1)
    } else {
        s
    };
    let parts = match spec_find_char(t, '.') {
        None => (t, Seq::<char>::empty()),
        Some(i) => (t.take(i), t.skip(i + 1)),
    };
    let ints = parts.0;
    let frac = strip_zeros_end(parts.1);
    if !all_digits(ints) || !all_digits(parts.1) || ints.len() + parts.1.len() == 0 {
        None
    } else if str_to_nat(ints + frac) > u64::MAX || frac.len() > 19 {
        None
    } else {
        let m = str_to_nat(ints + frac) as u64;
        Some(
            Decimal {
                neg: neg && m != 0,
                mantissa: m,
                scale: frac.len() as u64,
            },
        )
    }
}

/// Characters casting to the same code point are the same character.
pub proof fn lemma_char_eq_by_u32(a: char, b: char)
    requires
        a as u32 == b as u32,
    ensures
        a == b,
{
    vstd::utf8::char_u32_cast(a, a as u32);
    vstd::utf8::char_u32_cast(b, b as u32);
}

/// Digit strings denote zero exactly when they consist of `'0'` characters.
proof fn lemma_str_to_nat_zero(s: Seq<char>)
    requires
        all_digits(s),
    ensures
        (str_to_nat(s) == 0) <==> (forall|j: int| 0 <= j < s.len() ==> s[j] == '0'),
    decreases s.len(),
{
    if s.len() > 0 {
        lemma_str_to_nat_zero(s.drop_last());
        assert(is_digit(s[s.len() - 1]));
        if str_to_nat(s) == 0 {
            assert(str_to_nat(s.drop_last()) == 0);
            assert(digit_val(s.last()) == 0);
            lemma_char_eq_by_u32(s.last(), '0');
            assert(s.last() == '0');
            assert(forall|j: int| 0 <= j < s.len() - 1 ==> s.drop_last()[j] == s[j]);
        } else {
            if forall|j: int| 0 <= j < s.len() ==> s[j] == '0' {
                assert(forall|j: int| 0 <= j < s.len() - 1 ==> s.drop_last()[j] == '0');
                assert(str_to_nat(s.drop_last()) == 0);
                assert(digit_val(s.last()) == 0);
            }
        }
    }
}

/// `str_to_nat` only grows under extension to the right.
proof fn lemma_str_to_nat_extend_ge(a: Seq<char>, b: Seq<char>)
    ensures
        str_to_nat(a + b) >= str_to_nat(a),
{
    lemma_str_to_nat_append(a, b);
    lemma_pow10_pos(b.len());
    vstd::arithmetic::mul::lemma_mul_inequality(1, pow10(b.len()) as int, str_to_nat(a) as int);
    vstd::arithmetic::mul::lemma_mul_is_commutative(pow10(b.len()) as int, str_to_nat(a) as int);
}

/// Folds the digits of `s[from..to]` onto `acc`, where `acc` is the value of
/// the ghost digit string `prefix`; `None` once the value leaves `u64`.
fn accum_digits(s: &str, from: usize, to: usize, acc: u64, prefix: Ghost<Seq<char>>) -> (r: Option<
    u64,
>)
    requires
        from <= to <= s@.len(),
        all_digits(s@.subrange(from as int, to as int)),
        acc == str_to_nat(prefix@),
    ensures
        r == (if str_to_nat(prefix@ + s@.subrange(from as int, to as int)) > u64::MAX {
            None::<u64>
        } else {
            Some(str_to_nat(prefix@ + s@.subrange(from as int, to as int)) as u64)
        }),
{
    let mut acc: u64 = acc;
    let mut i: usize = from;
    proof {
        assert(prefix@ + s@.subrange(from as int, from as int) =~= prefix@);
    }
    while i < to
        invariant
            from <= i <= to <= s@.len(),
            all_digits(s@.subrange(from as int, to as int)),
            acc == str_to_nat(prefix@ + s@.subrange(from as int, i as int)),
        decreases to - i,
    {
        let c = s.get_char(i);
        proof {
            assert(s@.subrange(from as int, to as int)[i - from] == s@[i as int]);
            assert(is_digit(s@[i as int]));
        }
        let d: u64 = (c as u32 - 48) as u64;
        proof {
            let cur = prefix@ + s@.subrange(from as int, i as int);
            let nxt = prefix@ + s@.subrange(from as int, i + 1);
            assert(nxt.drop_last() =~= cur);
            assert(nxt.last() == s@[i as int]);
            assert(str_to_nat(nxt) == acc * 10 + d);
        }
        if acc > (u64::MAX - d) / 10 {
            proof {
                let nxt = prefix@ + s@.subrange(from as int, i + 1);
                let whole = prefix@ + s@.subrange(from as int, to as int);
                assert(str_to_nat(nxt) > u64::MAX);
                assert(nxt + s@.subrange(i + 1, to as int) =~= whole);
                lemma_str_to_nat_extend_ge(nxt, s@.subrange(i + 1, to as int));
            }
            return None;
        }
        acc = acc * 10 + d;
        i += 1;
    }
    Some(acc)
}

/// Reads a decimal field.
pub fn parse_dec_str(s: &str) -> (r: Option<Decimal>)
    ensures
        r == spec_parse_dec(s@),
{
    let n = s.unicode_len();
    let has_sign = n > 0 && (s.get_char(0) == '-' || s.get_char(0) == '+');
    let neg = n > 0 && s.get_char(0) == '-';
    let t: &str = if has_sign {
        s.substring_char(1, n)
    } else {
        s
    };
    assert(t@ == if s@.len() > 0 && (s@[0] == '-' || s@[0] == '+') {
        s@.skip(1)
    } else {
        s@
    });
    let tn = t.unicode_len();
    let fopt = find_char(t, '.');
    proof {
        lemma_find_char(t@, '.');
    }
    let (ints, frac0): (&str, &str) = match fopt {
        None => (t, ""),
        Some(i) => (t.substring_char(0, i), t.substring_char(i + 1, tn)),
    };
    proof {
        reveal_strlit("");
        match spec_find_char(t@, '.') {
            None => {
                assert(ints@ =~= t@);
            },
            Some(i) => {
                assert(ints@ =~= t@.take(i));
            },
        }
    }
    if !all_digits_str(ints) || !all_digits_str(frac0) {
        return None;
    }
    let fn0 = frac0.unicode_len();
    if ints.unicode_len() == 0 && fn0 == 0 {
        return None;
    }
    // Length of the fraction once trailing zeros are gone.
    let mut k: usize = fn0;
    while k > 0 && frac0.get_char(k - 1) == '0'
        invariant
            0 <= k <= fn0 == frac0@.len(),
            forall|j: int| k <= j < fn0 ==> frac0@[j] == '0',
        decreases k,
    {
        k -= 1;
    }
    proof {
        lemma_strip_zeros_end(frac0@, k as int);
    }
    if k > 19 {
        // More fraction digits than the mantissa can carry.
        proof {
            let ghost stripped = strip_zeros_end(frac0@);
            assert(stripped.len() == k);
        }
        return None;
    }
    proof {
        assert(ints@.subrange(0, ints@.len() as int) =~= ints@);
        assert(Seq::<char>::empty() + ints@ =~= ints@);
    }
    let acc1 = match accum_digits(ints, 0, ints.unicode_len(), 0, Ghost(Seq::<char>::empty())) {
        Some(a) => a,
        None => {
            proof {
                let whole = ints@ + strip_zeros_end(frac0@);
                lemma_str_to_nat_extend_ge(ints@, strip_zeros_end(frac0@));
            }
            return None;
        },
    };
    proof {
        assert(frac0@.subrange(0, k as int) =~= strip_zeros_end(frac0@));
    }
    let m = match accum_digits(frac0, 0, k, acc1, Ghost(ints@)) {
        Some(m) => m,
        None => {
            return None;
        },
    };
    proof {
        assert(ints@ + frac0@.subrange(0, k as int) =~= ints@ + strip_zeros_end(frac0@));
    }
    Some(
        Decimal {
            neg: neg && m != 0,
            mantissa: m,
            scale: k as u64,
        },
    )
}

} // verus!

verus! {

/// `10^k` computed executably; `10^19` still fits in a `u64`.
fn pow10_u64(k: u64) -> (r: u64)
    requires
        k <= 19,
    ensures
        r == pow10(k as nat),
{
    proof {
        lemma_pow10_19();
    }
    let mut r: u64 = 1;
    let mut i: u64 = 0;
    while i < k
        invariant
            0 <= i <= k <= 19,
            r == pow10(i as nat),
        decreases k - i,
    {
        proof {
            lemma_pow10_19();
            lemma_pow10_mono(i as nat + 1, 19);
            assert(pow10(i as nat + 1) == 10 * pow10(i as nat));
        }
        r = r * 10;
        i += 1;
    }
    r
}

/// `10^19` written out, so that bounds on mantissas become concrete.
pub proof fn lemma_pow10_19()
    ensures
        pow10(19) == 10_000_000_000_000_000_000,
        pow10(20) == 100_000_000_000_000_000_000,
{
    assert(pow10(0) == 1);
    assert(pow10(1) == 10);
    assert(pow10(2) == 100);
    assert(pow10(3) == 1000);
    assert(pow10(4) == 10000);
    assert(pow10(5) == 100000);
    assert(pow10(6) == 1000000);
    assert(pow10(7) == 10000000);
    assert(pow10(8) == 100000000);
    assert(pow10(9) == 1000000000);
    assert(pow10(10) == 10000000000);
    assert(pow10(11) == 100000000000);
    assert(pow10(12) == 1000000000000);
    assert(pow10(13) == 10000000000000);
    assert(pow10(14) == 100000000000000);
    assert(pow10(15) == 1000000000000000);
    assert(pow10(16) == 10000000000000000);
    assert(pow10(17) == 100000000000000000);
    assert(pow10(18) == 1000000000000000000);
    assert(pow10(19) == 10000000000000000000);
    assert(pow10(20) == 100000000000000000000);
}

pub proof fn lemma_pow10_mono(a: nat, b: nat)
    requires
        a <= b,
    ensures
        pow10(a) <= pow10(b),
    decreases b,
{
    if a < b {
        lemma_pow10_mono(a, (b - 1) as nat);
        lemma_pow10_pos((b - 1) as nat);
    }
}

/// Counts the canonical digits of `n`.
fn count_digits(n: u64) -> (r: u64)
    ensures
        r == dec_digits(n as nat).len(),
        1 <= r <= 20,
{
    proof {
        lemma_pow10_19();
        lemma_dec_digits_len(n as nat, 20);
    }
    let mut x: u64 = n;
    let mut c: u64 = 1;
    while x >= 10
        invariant
            dec_digits(n as nat).len() == c - 1 + dec_digits(x as nat).len(),
            1 <= c,
            c - 1 + dec_digits(x as nat).len() <= 20,
        decreases x,
    {
        assert(dec_digits(x as nat) == dec_digits((x as nat) / 10).push(
            digit_char((x as nat) % 10),
        ));
        x = x / 10;
        c += 1;
    }
    c
}

/// Appends the canonical text of `d` to `out`.
pub fn render_dec(d: &Decimal, out: &mut String)
    requires
        dec_valid(*d),
    ensures
        final(out)@ == old(out)@ + spec_render_dec(*d),
{
    let ghost start = out@;
    if d.neg {
        out.append("-");
        proof {
            reveal_strlit("-");
            assert("-"@ =~= seq!['-']);
        }
    }
    proof {
        if !d.neg {
            assert(out@ =~= start + Seq::<char>::empty());
        }
    }
    if d.scale == 0 {
        render_u64(d.mantissa, out);
        proof {
            assert(out@ =~= start + spec_render_dec(*d));
        }
        return ;
    }
    let p = pow10_u64(d.scale);
    proof {
        lemma_pow10_pos(d.scale as nat);
    }
    let ip: u64 = d.mantissa / p;
    let fp: u64 = d.mantissa % p;
    render_u64(ip, out);
    out.append(".");
    proof {
        reveal_strlit(".");
        assert("."@ =~= seq!['.']);
    }
    let cnt = count_digits(fp);
    proof {
        lemma_dec_digits_len(fp as nat, d.scale as nat);
    }
    let ghost before_zeros = out@;
    let mut z: u64 = cnt;
    proof {
        assert(zeros(0) =~= Seq::<char>::empty());
        assert(out@ =~= before_zeros + zeros(0));
    }
    while z < d.scale
        invariant
            cnt <= z <= d.scale || (z == cnt && cnt >= d.scale),
            cnt == dec_digits(fp as nat).len(),
            out@ == before_zeros + zeros((z - cnt) as nat),
        decreases d.scale - z,
    {
        out.append("0");
        proof {
            reveal_strlit("0");
            assert("0"@ =~= seq!['0']);
            assert(zeros((z + 1 - cnt) as nat) =~= zeros((z - cnt) as nat) + seq!['0']);
            assert(before_zeros + (zeros((z - cnt) as nat) + seq!['0']) =~= (before_zeros + zeros(
                (z - cnt) as nat,
            )) + seq!['0']);
        }
        z += 1;
    }
    render_u64(fp, out);
    proof {
        assert(out@ =~= start + spec_render_dec(*d));
    }
}

/// Round trip: parsing the canonical text of a canonical decimal gives the
/// same value back.
pub proof fn lemma_dec_round_trip(d: Decimal)
    requires
        dec_valid(d),
    ensures
        spec_parse_dec(spec_render_dec(d)) == Some(d),
{
    let m = d.mantissa as nat;
    let sc = d.scale as nat;
    let s = spec_render_dec(d);
    let sign = if d.neg {
        seq!['-']
    } else {
        Seq::<char>::empty()
    };
    lemma_pow10_pos(sc);
    let p = pow10(sc);
    let ip = m / p;
    let fp = m % p;
    let fd = dec_digits(fp);
    lemma_dec_digits(fp);
    lemma_dec_digits(ip);
    lemma_dec_digits(m);
    if d.scale == 0 {
        assert(s == sign + dec_digits(m));
        let t = if d.neg {
            s.skip(1)
        } else {
            s
        };
        assert(t =~= dec_digits(m));
        if !d.neg && s.len() > 0 && (s[0] == '-' || s[0] == '+') {
            assert(is_digit(s[0]));
            assert(false);
        }
        lemma_find_char_unique(t, '.', t.len() as int);
        assert(spec_find_char(t, '.') is None) by {
            if exists|j: int| 0 <= j < t.len() && t[j] == '.' {
                let j = choose|j: int| 0 <= j < t.len() && t[j] == '.';
                assert(is_digit(t[j]));
            }
        }
        assert(strip_zeros_end(Seq::<char>::empty()) =~= Seq::<char>::empty());
        assert(t + Seq::<char>::empty() =~= t);
        assert(str_to_nat(t) == m);
        if m == 0 {
            assert(!d.neg);
        }
    } else {
        lemma_dec_digits_len(fp, sc);
        let zs = zeros((sc - fd.len()) as nat);
        assert(all_digits(zs)) by {
            assert(forall|j: int| 0 <= j < zs.len() ==> zs[j] == '0');
            assert(is_digit('0'));
        }
        let frac_seq = zs + fd;
        assert(frac_seq.len() == sc);
        assert(s == sign + dec_digits(ip) + seq!['.'] + zs + fd);
        let t = if d.neg {
            s.skip(1)
        } else {
            s
        };
        assert(t =~= dec_digits(ip) + seq!['.'] + zs + fd);
        if !d.neg && s.len() > 0 && (s[0] == '-' || s[0] == '+') {
            assert(s[0] == (dec_digits(ip) + seq!['.'] + zs + fd)[0]);
            assert(is_digit(dec_digits(ip)[0]));
            assert(false);
        }
        let di = dec_digits(ip).len() as int;
        assert(t[di] == '.');
        assert(forall|j: int| 0 <= j < di ==> t[j] == dec_digits(ip)[j] && is_digit(t[j]));
        assert(forall|j: int| 0 <= j < di ==> t[j] != '.') by {
            if exists|j: int| 0 <= j < di && t[j] == '.' {
                let j = choose|j: int| 0 <= j < di && t[j] == '.';
                assert(is_digit(t[j]));
            }
        }
        lemma_find_char_unique(t, '.', di);
        assert(spec_find_char(t, '.') == Some(di));
        let ints = t.take(di);
        let frac0 = t.skip(di + 1);
        assert(ints =~= dec_digits(ip));
        assert(frac0 =~= frac_seq);
        // The stripped fraction is the whole fraction: its last digit is the
        // mantissa's last digit, which canonical form keeps nonzero.
        assert(fd.last() == digit_char(fp % 10));
        vstd::arithmetic::div_mod::lemma_mod_mod(m as int, 10, pow10((sc - 1) as nat) as int);
        assert(10 * pow10((sc - 1) as nat) == p);
        assert(fp % 10 == m % 10);
        assert(frac0.last() == fd.last());
        if frac0.last() == '0' {
            assert(digit_val(fd.last()) == fp % 10);
            assert(digit_val('0') == 0);
            assert(false);
        }
        lemma_strip_zeros_end(frac0, frac0.len() as int);
        assert(strip_zeros_end(frac0) == frac0);
        // The digits read back as the mantissa.
        lemma_str_to_nat_append(zs, fd);
        lemma_str_to_nat_zero(zs);
        assert(str_to_nat(zs) == 0);
        assert(str_to_nat(frac_seq) == fp) by {
            assert(str_to_nat(zs) * pow10(fd.len()) == 0) by {
                vstd::arithmetic::mul::lemma_mul_basics(pow10(fd.len()) as int);
            }
        }
        lemma_str_to_nat_append(dec_digits(ip), frac_seq);
        assert(ints + frac0 =~= dec_digits(ip) + frac_seq);
        assert(str_to_nat(ints + frac0) == ip * p + fp);
        vstd::arithmetic::div_mod::lemma_fundamental_div_mod(m as int, p as int);
        assert(p * (m / p) == (m / p) * p) by {
            vstd::arithmetic::mul::lemma_mul_is_commutative(p as int, (m / p) as int);
        }
        assert(str_to_nat(ints + frac0) == m);
        assert(m != 0) by {
            assert(m % 10 != 0);
        }
        assert(spec_parse_dec(s) == Some(d));
    }
}

} // verus!

verus! {

/// Every character of a rendered decimal is a digit, a sign, or a dot.
pub proof fn lemma_render_dec_plain(d: Decimal)
    ensures
        forall|j: int|
            0 <= j < spec_render_dec(d).len() ==> crate::numeric::plain_num_char(
                #[trigger] spec_render_dec(d)[j],
            ),
        spec_render_dec(d).len() >= 1,
{
    let p = pow10(d.scale as nat);
    let ip = d.mantissa as nat / p;
    let fp = d.mantissa as nat % p;
    let fd = dec_digits(fp);
    lemma_dec_digits(fp);
    lemma_dec_digits(ip);
    lemma_dec_digits(d.mantissa as nat);
    let s = spec_render_dec(d);
    let sign = if d.neg {
        seq!['-']
    } else {
        Seq::<char>::empty()
    };
    if d.scale == 0 {
        assert(s == sign + dec_digits(d.mantissa as nat));
        assert forall|j: int| 0 <= j < s.len() implies crate::numeric::plain_num_char(
            #[trigger] s[j],
        ) by {
            if j >= sign.len() {
                assert(s[j] == dec_digits(d.mantissa as nat)[j - sign.len()]);
            }
        }
    } else if fd.len() <= d.scale as nat {
        let zs = zeros((d.scale as nat - fd.len()) as nat);
        assert(s == sign + dec_digits(ip) + seq!['.'] + zs + fd);
        assert forall|j: int| 0 <= j < s.len() implies crate::numeric::plain_num_char(
            #[trigger] s[j],
        ) by {
            let a = sign.len() as int;
            let b = a + dec_digits(ip).len();
            let c = b + 1;
            let e = c + zs.len();
            if j < a {
            } else if j < b {
                assert(s[j] == dec_digits(ip)[j - a]);
            } else if j < c {
                assert(s[j] == '.');
            } else if j < e {
                assert(s[j] == zs[j - c]);
                assert(s[j] == '0');
                assert(crate::numeric::is_digit('0'));
            } else {
                assert(s[j] == fd[j - e]);
            }
        }
    } else {
        assert(s == sign + dec_digits(ip) + seq!['.'] + fd);
        assert forall|j: int| 0 <= j < s.len() implies crate::numeric::plain_num_char(
            #[trigger] s[j],
        ) by {
            let a = sign.len() as int;
            let b = a + dec_digits(ip).len();
            let c = b + 1;
            if j < a {
            } else if j < b {
                assert(s[j] == dec_digits(ip)[j - a]);
            } else if j < c {
                assert(s[j] == '.');
            } else {
                assert(s[j] == fd[j - c]);
            }
        }
    }
}

} // verus!

verus! {

/// A rendered decimal token is non-empty and free of separators.
pub proof fn lemma_dec_token(d: Decimal)
    ensures
        spec_render_dec(d).len() >= 1,
        forall|j: int|
            0 <= j < spec_render_dec(d).len() ==> #[trigger] spec_render_dec(d)[j] != ','
                && spec_render_dec(d)[j] != ':' && spec_render_dec(d)[j] != '|'
                && !crate::text::is_ws(spec_render_dec(d)[j]),
{
    lemma_render_dec_plain(d);
    assert forall|j: int| 0 <= j < spec_render_dec(d).len() implies #[trigger] spec_render_dec(
        d,
    )[j] != ',' && spec_render_dec(d)[j] != ':' && spec_render_dec(d)[j] != '|'
        && !crate::text::is_ws(spec_render_dec(d)[j]) by {
        crate::numeric::lemma_plain_char_props(spec_render_dec(d)[j]);
    }
}

} // verus!

verus! {

/// The stripped string is a prefix whose last character, if any, is not
/// `'0'`.
proof fn lemma_strip_prefix(s: Seq<char>)
    ensures
        strip_zeros_end(s).len() <= s.len(),
        forall|j: int|
            0 <= j < strip_zeros_end(s).len() ==> #[trigger] strip_zeros_end(s)[j] == s[j],
        strip_zeros_end(s).len() > 0 ==> strip_zeros_end(s).last() != '0',
    decreases s.len(),
{
    if s.len() > 0 && s.last() == '0' {
        lemma_strip_prefix(s.drop_last());
        assert(forall|j: int| 0 <= j < s.len() - 1 ==> s.drop_last()[j] == s[j]);
    }
}

/// A non-empty digit string's value ends in its last digit.
proof fn lemma_str_to_nat_last_digit(s: Seq<char>)
    requires
        all_digits(s),
        s.len() > 0,
    ensures
        str_to_nat(s) % 10 == digit_val(s.last()),
{
    let v = str_to_nat(s.drop_last());
    let d = digit_val(s.last());
    assert(is_digit(s.last()));
    assert(d < 10);
    assert(str_to_nat(s) == v * 10 + d);
    vstd::arithmetic::div_mod::lemma_mod_multiples_vanish(v as int, d as int, 10);
    assert(10 * (v as int) + d == v * 10 + d) by {
        vstd::arithmetic::mul::lemma_mul_is_commutative(10, v as int);
    }
    vstd::arithmetic::div_mod::lemma_small_mod(d, 10);
}

/// Whatever the decimal parser accepts, it hands back in canonical form.
pub proof fn lemma_parse_dec_valid(s: Seq<char>)
    ensures
        match spec_parse_dec(s) {
            Some(d) => dec_valid(d),
            None => true,
        },
{
    if spec_parse_dec(s) is Some {
        let has_sign = s.len() > 0 && (s[0] == '-' || s[0] == '+');
        let t = if has_sign {
            s.skip(1)
        } else {
            s
        };
        let parts = match spec_find_char(t, '.') {
            None => (t, Seq::<char>::empty()),
            Some(i) => (t.take(i), t.skip(i + 1)),
        };
        let ints = parts.0;
        let frac = strip_zeros_end(parts.1);
        let m = str_to_nat(ints + frac);
        lemma_strip_prefix(parts.1);
        if frac.len() > 0 {
            assert(all_digits(frac)) by {
                assert(forall|j: int| 0 <= j < frac.len() ==> frac[j] == #[trigger] parts.1[j]);
            }
            assert(all_digits(ints + frac)) by {
                assert(forall|j: int|
                    0 <= j < ints.len() + frac.len() ==> #[trigger] (ints + frac)[j] == if j
                        < ints.len() {
                        ints[j]
                    } else {
                        frac[j - ints.len()]
                    });
            }
            lemma_str_to_nat_last_digit(ints + frac);
            assert((ints + frac).last() == frac.last());
            assert(frac.last() != '0');
            assert(digit_val(frac.last()) != 0) by {
                if digit_val(frac.last()) == 0 {
                    lemma_char_eq_by_u32(frac.last(), '0');
                }
            }
            assert(m % 10 != 0);
            assert(m != 0);
        }
    }
}

} // verus!
