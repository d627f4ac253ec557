//! Fixed-point monetary amounts: ten-thousandths of a unit, four decimal
//! digits of precision, exactly the precision the output is rendered at.
//!
//! Parsing takes the raw bytes of one input field and is exact: a value is
//! returned precisely for the decimal numerals the grammar admits (digits,
//! optionally followed by a point and at most four fraction digits) whose
//! value fits the representation. More than four fraction digits are
//! rejected rather than rounded, so no input loses precision silently.

use vstd::prelude::*;

verus! {

/// The byte is an ASCII decimal digit.
pub open spec fn is_digit(b: u8) -> bool {
    48 <= b && b <= 57
}

/// Every byte of the sequence is an ASCII decimal digit.
pub open spec fn all_digits(s: Seq<u8>) -> bool {
    forall|i: int| 0 <= i < s.len() ==> is_digit(#[trigger] s[i])
}

/// The value of a sequence of ASCII digits read as a decimal numeral.
pub open spec fn digits_val(s: Seq<u8>) -> int
    decreases s.len(),
{
    if s.len() == 0 {
        0
    } else {
        digits_val(s.drop_last()) * 10 + (s.last() - 48)
    }
}

/// A decimal numeral's value is never negative.
pub proof fn lemma_digits_val_nonneg(s: Seq<u8>)
    requires
        all_digits(s),
    ensures
        digits_val(s) >= 0,
    decreases s.len(),
{
    if s.len() > 0 {
        lemma_digits_val_nonneg(s.drop_last());
    }
}

/// Dropping trailing digits never increases a numeral's value.
pub proof fn lemma_digits_val_prefix(s: Seq<u8>, k: int)
    requires
        all_digits(s),
        0 <= k <= s.len(),
    ensures
        digits_val(s.subrange(0, k)) <= digits_val(s),
    decreases s.len() - k,
{
    if k < s.len() {
        lemma_digits_val_prefix(s, k + 1);
        let p = s.subrange(0, k + 1);
        assert(p.drop_last() =~= s.subrange(0, k));
        assert(all_digits(s.subrange(0, k))) by {
            assert(forall|i: int|
                0 <= i < k ==> s.subrange(0, k)[i] == #[trigger] s[i] && is_digit(s[i]));
        }
        lemma_digits_val_nonneg(s.subrange(0, k));
    } else {
        assert(s.subrange(0, k) =~= s);
    }
}

/// The numerals a parse accepts, against a bound: at least one digit,
/// nothing but digits, and a value within the bound.
pub open spec fn spec_uint(s: Seq<u8>, max: int) -> Option<int> {
    if s.len() > 0 && all_digits(s) && digits_val(s) <= max {
        Option::Some(digits_val(s))
    } else {
        Option::None
    }
}

/// Reads an unsigned decimal numeral, exactly when the whole field is one
/// and its value fits a `u64`.
pub fn parse_digits(s: &Vec<u8>) -> (r: Option<u64>)
    ensures
        r is Some <==> spec_uint(s@, u64::MAX as int) is Some,
        r is Some ==> r->Some_0 == spec_uint(s@, u64::MAX as int)->Some_0,
{
    let n = s.len();
    if n == 0 {
        return Option::None;
    }
    let mut acc: u64 = 0;
    let mut i: usize = 0;
    while i < n
        invariant
            i <= n,
            n == s@.len(),
            all_digits(s@.subrange(0, i as int)),
            acc == digits_val(s@.subrange(0, i as int)),
        decreases n - i,
    {
        let b = s[i];
        if b < 48 || b > 57 {
            proof {
                assert(!is_digit(s@[i as int]));
            }
            return Option::None;
        }
        let d = b - 48;
        proof {
            let p = s@.subrange(0, i + 1);
            assert(p.drop_last() =~= s@.subrange(0, i as int));
            assert(p.last() == s@[i as int]);
        }
        if acc > (u64::MAX - (d as u64)) / 10 {
            proof {
                let done = s@.subrange(0, i + 1);
                let q = ((u64::MAX - d) / 10) as int;
                assert((u64::MAX - d) as int == 10 * q + ((u64::MAX - d) as int % 10)) by {
                    vstd::arithmetic::div_mod::lemma_fundamental_div_mod(
                        (u64::MAX - d) as int,
                        10,
                    );
                }
                assert(digits_val(done) > u64::MAX);
                if all_digits(s@) {
                    lemma_digits_val_prefix(s@, i + 1);
                }
            }
            return Option::None;
        }
        acc = acc * 10 + (d as u64);
        i = i + 1;
    }
    proof {
        assert(s@.subrange(0, n as int) =~= s@);
    }
    Option::Some(acc)
}

/// Reads a client id: an unsigned decimal numeral that fits sixteen bits.
pub fn parse_u16(s: &Vec<u8>) -> (r: Option<u16>)
    ensures
        r is Some <==> spec_uint(s@, u16::MAX as int) is Some,
        r is Some ==> r->Some_0 == spec_uint(s@, u16::MAX as int)->Some_0,
{
    match parse_digits(s) {
        Option::Some(v) => if v <= u16::MAX as u64 {
            Option::Some(v as u16)
        } else {
            Option::None
        },
        Option::None => Option::None,
    }
}

/// Reads a transaction id: an unsigned decimal numeral that fits
/// thirty-two bits.
pub fn parse_u32(s: &Vec<u8>) -> (r: Option<u32>)
    ensures
        r is Some <==> spec_uint(s@, u32::MAX as int) is Some,
        r is Some ==> r->Some_0 == spec_uint(s@, u32::MAX as int)->Some_0,
{
    match parse_digits(s) {
        Option::Some(v) => if v <= u32::MAX as u64 {
            Option::Some(v as u32)
        } else {
            Option::None
        },
        Option::None => Option::None,
    }
}

/// Ten to a small power.
pub open spec fn pow10(n: int) -> int
    decreases n,
{
    if n <= 0 {
        1
    } else {
        10 * pow10(n - 1)
    }
}

/// The powers of ten up to the four fraction places, written out.
pub proof fn lemma_pow10_small()
    ensures
        pow10(0) == 1,
        pow10(1) == 10,
        pow10(2) == 100,
        pow10(3) == 1000,
        pow10(4) == 10000,
{
    assert(pow10(0) == 1);
    assert(pow10(1) == 10);
    assert(pow10(2) == 100);
    assert(pow10(3) == 1000);
    assert(pow10(4) == 10000);
}

/// The byte at this position is the field's first decimal point.
pub open spec fn dot_at(s: Seq<u8>, i: int) -> bool {
    &&& 0 <= i < s.len()
    &&& s[i] == 46
    &&& forall|j: int| 0 <= j < i ==> s[j] != 46
}

/// A field has at most one first decimal point.
pub proof fn lemma_dot_unique(s: Seq<u8>, i: int, j: int)
    requires
        dot_at(s, i),
        dot_at(s, j),
    ensures
        i == j,
{
}

/// The value of a numeral split at its decimal point, in ten-thousandths:
/// the fraction digits are scaled as the leading four fraction places.
pub open spec fn split_val(ip: Seq<u8>, fp: Seq<u8>) -> int {
    digits_val(ip) * 10000 + digits_val(fp) * pow10(4 - fp.len())
}

/// The amounts a parse accepts, in ten-thousandths of a unit: digit(s),
/// optionally followed by a decimal point and at most four fraction digits,
/// with a value that fits a `u64`.
pub open spec fn spec_amount(s: Seq<u8>) -> Option<int> {
    if exists|i: int| dot_at(s, i) {
        let i = choose|i: int| dot_at(s, i);
        let ip = s.subrange(0, i);
        let fp = s.subrange(i + 1, s.len() as int);
        if ip.len() > 0 && all_digits(ip) && all_digits(fp) && fp.len() <= 4 && split_val(ip, fp)
            <= u64::MAX {
            Option::Some(split_val(ip, fp))
        } else {
            Option::None
        }
    } else {
        if s.len() > 0 && all_digits(s) && digits_val(s) * 10000 <= u64::MAX {
            Option::Some(digits_val(s) * 10000)
        } else {
            Option::None
        }
    }
}

/// Copies one range of a field's bytes.
fn copy_range(s: &Vec<u8>, from: usize, to: usize) -> (r: Vec<u8>)
    requires
        from <= to <= s@.len(),
    ensures
        r@ == s@.subrange(from as int, to as int),
{
    let mut r: Vec<u8> = Vec::new();
    let mut i: usize = from;
    while i < to
        invariant
            from <= i <= to <= s@.len(),
            r@ == s@.subrange(from as int, i as int),
        decreases to - i,
    {
        r.push(s[i]);
        i = i + 1;
        proof {
            assert(s@.subrange(from as int, i as int) =~= s@.subrange(
                from as int,
                i - 1,
            ).push(s@[i - 1]));
        }
    }
    r
}

/// Scaling an integer part by the four fraction places stays within `u64`
/// exactly when the integer part is at most the capacity's quotient.
proof fn lemma_scale_bound(v: int, frac: int)
    requires
        0 <= v,
        0 <= frac <= u64::MAX,
    ensures
        v <= ((u64::MAX - frac) as int) / 10000 <==> v * 10000 + frac <= u64::MAX,
{
    let room = (u64::MAX - frac) as int;
    let q = room / 10000;
    vstd::arithmetic::div_mod::lemma_fundamental_div_mod(room, 10000);
    assert(v <= q ==> v * 10000 <= q * 10000) by (nonlinear_arith);
    assert(v > q ==> v * 10000 >= (q + 1) * 10000) by (nonlinear_arith);
}

/// Reads a monetary amount in ten-thousandths of a unit, exactly when the
/// field is a decimal numeral the grammar admits whose value fits.
pub fn parse_amount(s: &Vec<u8>) -> (r: Option<u64>)
    ensures
        r is Some <==> spec_amount(s@) is Some,
        r is Some ==> r->Some_0 == spec_amount(s@)->Some_0,
{
    let n = s.len();
    let mut dot: usize = n;
    let mut i: usize = 0;
    while i < n && dot == n
        invariant
            i <= n,
            dot <= n,
            n == s@.len(),
            dot == n ==> forall|j: int| 0 <= j < i ==> s@[j] != 46,
            dot < n ==> dot_at(s@, dot as int),
        decreases n - i,
    {
        if s[i] == 46 {
            dot = i;
        }
        i = i + 1;
    }
    if dot == n {
        proof {
            assert(forall|k: int| !dot_at(s@, k));
        }
        match parse_digits(s) {
            Option::None => {
                proof {
                    if s@.len() > 0 && all_digits(s@) {
                        lemma_digits_val_nonneg(s@);
                        lemma_scale_bound(digits_val(s@), 0);
                    }
                }
                Option::None
            },
            Option::Some(v) => {
                proof {
                    lemma_digits_val_nonneg(s@);
                    lemma_scale_bound(v as int, 0);
                }
                if v > u64::MAX / 10000 {
                    Option::None
                } else {
                    Option::Some(v * 10000)
                }
            },
        }
    } else {
        proof {
            assert(dot_at(s@, dot as int));
            let c = choose|k: int| dot_at(s@, k);
            lemma_dot_unique(s@, c, dot as int);
        }
        let ip = copy_range(s, 0, dot);
        let fp = copy_range(s, dot + 1, n);
        if dot == 0 {
            return Option::None;
        }
        let fp_len = n - dot - 1;
        if fp_len > 4 {
            return Option::None;
        }
        let frac: u64 = if fp_len == 0 {
            0
        } else {
            match parse_digits(&fp) {
                Option::None => {
                    proof {
                        assert(fp@.len() <= 4);
                        if all_digits(fp@) {
                            lemma_small_digits(fp@);
                        }
                    }
                    return Option::None;
                },
                Option::Some(f) => f,
            }
        };
        let scale: u64 = match fp_len {
            0 => 10000,
            1 => 1000,
            2 => 100,
            3 => 10,
            _ => 1,
        };
        proof {
            lemma_pow10_small();
            assert(scale == pow10(4 - fp@.len()));
            if fp_len > 0 {
                lemma_digits_val_nonneg(fp@);
                lemma_small_digits(fp@);
            }
            assert(frac * scale <= 9999 * 10000) by (nonlinear_arith)
                requires
                    0 <= frac <= 9999 && 0 <= scale <= 10000,
            ;
        }
        let scaled_frac: u64 = if fp_len == 0 {
            0
        } else {
            frac * scale
        };
        proof {
            assert(scaled_frac == digits_val(fp@) * pow10(4 - fp@.len())) by {
                if fp_len == 0 {
                    assert(digits_val(fp@) == 0);
                }
            }
            assert(scaled_frac <= 99990000) by (nonlinear_arith)
                requires
                    scaled_frac == 0 || (scaled_frac == frac * scale && 0 <= frac <= 9999 && 0
                        <= scale <= 10000),
            ;
        }
        match parse_digits(&ip) {
            Option::None => {
                proof {
                    if ip@.len() > 0 && all_digits(ip@) {
                        lemma_digits_val_nonneg(ip@);
                        lemma_scale_bound(digits_val(ip@), scaled_frac as int);
                    }
                }
                Option::None
            },
            Option::Some(v) => {
                proof {
                    lemma_digits_val_nonneg(ip@);
                    lemma_scale_bound(v as int, scaled_frac as int);
                }
                if v > (u64::MAX - scaled_frac) / 10000 {
                    Option::None
                } else {
                    Option::Some(v * 10000 + scaled_frac)
                }
            },
        }
    }
}

/// At most four digits read as a numeral stay below ten thousand.
proof fn lemma_small_digits(s: Seq<u8>)
    requires
        all_digits(s),
        s.len() <= 4,
    ensures
        digits_val(s) <= 9999,
        digits_val(s) < pow10(s.len() as int),
    decreases s.len(),
{
    lemma_pow10_small();
    if s.len() > 0 {
        assert(all_digits(s.drop_last()));
        lemma_small_digits(s.drop_last());
        assert(pow10(s.len() as int) == 10 * pow10(s.len() - 1));
    }
}

/// The decimal numeral of a non-negative integer, most significant digit
/// first.
pub open spec fn dec_digits(n: int) -> Seq<u8>
    decreases n,
{
    if n < 10 {
        seq![(48 + (if n >= 0 {
            n
        } else {
            0
        })) as u8]
    } else {
        dec_digits(n / 10).push((48 + n % 10) as u8)
    }
}

/// How an amount is rendered: the whole units, a decimal point, and
/// exactly four fraction digits.
pub open spec fn spec_format(a: int) -> Seq<u8> {
    dec_digits(a / 10000) + seq![46u8] + seq![
        (48 + (a % 10000) / 1000) as u8,
        (48 + ((a % 10000) / 100) % 10) as u8,
        (48 + ((a % 10000) / 10) % 10) as u8,
        (48 + (a % 10000) % 10) as u8,
    ]
}

/// Appends the decimal numeral of a value.
fn push_decimal(out: &mut Vec<u8>, n: u64)
    ensures
        final(out)@ == old(out)@ + dec_digits(n as int),
    decreases n,
{
    if n >= 10 {
        push_decimal(out, n / 10);
    }
    out.push(48 + (n % 10) as u8);
    proof {
        if n < 10 {
            assert(old(out)@ + dec_digits(n as int) =~= old(out)@.push(
                (48 + (n as int) % 10) as u8,
            ));
        } else {
            assert(old(out)@ + dec_digits(n as int) =~= (old(out)@ + dec_digits(
                n as int / 10,
            )).push((48 + n as int % 10) as u8));
        }
    }
}

/// The decimal numeral of a value is digits only, never empty, and reads
/// back as the value.
pub proof fn lemma_dec_digits(n: int)
    requires
        n >= 0,
    ensures
        all_digits(dec_digits(n)),
        digits_val(dec_digits(n)) == n,
        dec_digits(n).len() >= 1,
    decreases n,
{
    if n < 10 {
        let s = dec_digits(n);
        assert(s =~= seq![(48 + n) as u8]);
        assert(s.drop_last() =~= Seq::<u8>::empty());
        assert(digits_val(Seq::<u8>::empty()) == 0);
        assert(s.last() == (48 + n) as u8);
        assert(digits_val(s) == 0 * 10 + ((48 + n) as u8 - 48));
    } else {
        lemma_dec_digits(n / 10);
        let s = dec_digits(n / 10);
        let p = dec_digits(n);
        assert(p =~= s.push((48 + n % 10) as u8));
        assert(p.drop_last() =~= s);
        vstd::arithmetic::div_mod::lemma_fundamental_div_mod(n, 10);
        vstd::arithmetic::div_mod::lemma_mod_bound(n, 10);
        vstd::arithmetic::div_mod::lemma_div_pos_is_pos(n, 10);
        assert(p.last() == (48 + n % 10) as u8);
        assert(0 <= n % 10 <= 9);
        assert(digits_val(p) == digits_val(s) * 10 + (n % 10));
        assert forall|i: int| 0 <= i < p.len() implies is_digit(#[trigger] p[i]) by {
            if i < s.len() {
                assert(is_digit(s[i]));
            }
        }
    }
}

/// Rendering inverts parsing: the fixed four-decimal rendering of any
/// amount parses back to exactly that amount.
pub proof fn law_format_parses_back(a: int)
    requires
        0 <= a <= u64::MAX,
    ensures
        spec_amount(spec_format(a)) == Option::Some(a),
{
    let whole = a / 10000;
    let f = a % 10000;
    let s = spec_format(a);
    let ip = dec_digits(whole);
    let fp = seq![
        (48 + f / 1000) as u8,
        (48 + (f / 100) % 10) as u8,
        (48 + (f / 10) % 10) as u8,
        (48 + f % 10) as u8,
    ];
    vstd::arithmetic::div_mod::lemma_fundamental_div_mod(a, 10000);
    assert(0 <= f < 10000) by {
        vstd::arithmetic::div_mod::lemma_mod_bound(a, 10000);
    }
    assert(whole >= 0) by {
        vstd::arithmetic::div_mod::lemma_div_pos_is_pos(a, 10000);
    }
    lemma_dec_digits(whole);
    let dot = ip.len() as int;

    // The single decimal point sits right after the whole units.
    assert(s[dot] == 46);
    assert forall|j: int| 0 <= j < dot implies s[j] != 46 by {
        assert(s[j] == ip[j] && is_digit(ip[j]));
    }
    assert(dot_at(s, dot));
    let c = choose|i: int| dot_at(s, i);
    lemma_dot_unique(s, c, dot);

    assert(s.subrange(0, dot) =~= ip);
    assert(s.subrange(dot + 1, s.len() as int) =~= fp);

    // The four fraction digits are digits and read back as the fraction.
    vstd::arithmetic::div_mod::lemma_fundamental_div_mod(f, 10);
    vstd::arithmetic::div_mod::lemma_fundamental_div_mod(f / 10, 10);
    vstd::arithmetic::div_mod::lemma_fundamental_div_mod(f / 100, 10);
    vstd::arithmetic::div_mod::lemma_div_denominator(f, 10, 10);
    vstd::arithmetic::div_mod::lemma_div_denominator(f, 100, 10);
    vstd::arithmetic::div_mod::lemma_mod_bound(f, 10);
    vstd::arithmetic::div_mod::lemma_mod_bound(f / 10, 10);
    vstd::arithmetic::div_mod::lemma_mod_bound(f / 100, 10);
    vstd::arithmetic::div_mod::lemma_div_pos_is_pos(f, 10);
    vstd::arithmetic::div_mod::lemma_div_pos_is_pos(f / 10, 10);
    vstd::arithmetic::div_mod::lemma_div_pos_is_pos(f / 100, 10);
    assert(f / 1000 <= 9) by {
        vstd::arithmetic::div_mod::lemma_div_is_ordered(f, 9999, 1000);
    }
    assert(f / 1000 >= 0) by {
        vstd::arithmetic::div_mod::lemma_div_pos_is_pos(f / 100, 10);
    }
    assert(all_digits(fp));
    assert(digits_val(fp) == f) by {
        assert(fp.drop_last() =~= fp.subrange(0, 3));
        assert(fp.subrange(0, 3).drop_last() =~= fp.subrange(0, 2));
        assert(fp.subrange(0, 2).drop_last() =~= fp.subrange(0, 1));
        assert(fp.subrange(0, 1).drop_last() =~= Seq::<u8>::empty());
        assert(fp.subrange(0, 1).last() == fp[0]);
        assert(fp[0] == (48 + f / 1000) as u8);
        assert(digits_val(Seq::<u8>::empty()) == 0);
        assert(digits_val(fp.subrange(0, 1)) == f / 1000);
        assert(digits_val(fp.subrange(0, 2)) == (f / 1000) * 10 + (f / 100) % 10);
        assert((f / 1000) * 10 + (f / 100) % 10 == f / 100);
        assert(digits_val(fp.subrange(0, 3)) == (f / 100) * 10 + (f / 10) % 10);
        assert((f / 100) * 10 + (f / 10) % 10 == f / 10);
        assert(digits_val(fp) == (f / 10) * 10 + f % 10);
    }
    lemma_pow10_small();
    assert(split_val(ip, fp) == whole * 10000 + f);
    assert(spec_amount(s) == Option::Some(a));
}

/// Renders an amount at fixed four-digit decimal precision, the precision
/// the ledger's output promises.
pub fn format_amount(a: u64) -> (r: Vec<u8>)
    ensures
        r@ == spec_format(a as int),
{
    let mut out: Vec<u8> = Vec::new();
    push_decimal(&mut out, a / 10000);
    out.push(46);
    let frac = a % 10000;
    out.push(48 + (frac / 1000) as u8);
    out.push(48 + ((frac / 100) % 10) as u8);
    out.push(48 + ((frac / 10) % 10) as u8);
    out.push(48 + (frac % 10) as u8);
    proof {
        assert(out@ =~= spec_format(a as int));
    }
    out
}

} // verus!
