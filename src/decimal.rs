use vstd::prelude::*;
use crate::types::UNITS_PER_WHOLE;

verus! {

/// The digit character for `d < 10`.
pub open spec fn digit_char(d: nat) -> char {
    ((48 + d) as u8) as char
}

/// The decimal digits of `n`, without leading zeros.
pub open spec fn nat_text(n: nat) -> Seq<char>
    decreases n,
{
    if n < 10 {
        seq![digit_char(n)]
    } else {
        nat_text(n / 10).push(digit_char(n % 10))
    }
}

/// The last `width` decimal digits of `n`, with leading zeros.
pub open spec fn padded_text(n: nat, width: nat) -> Seq<char>
    decreases width,
{
    if width == 0 {
        Seq::empty()
    } else {
        padded_text(n / 10, (width - 1) as nat).push(digit_char(n % 10))
    }
}

/// `s` without its trailing zeros.
pub open spec fn trim_zeros(s: Seq<char>) -> Seq<char>
    decreases s.len(),
{
    if s.len() > 0 && s.last() == '0' {
        trim_zeros(s.drop_last())
    } else {
        s
    }
}

/// The decimal text of a quantity of `units` (of `10^-8`): the whole part,
/// then, where there is a fraction, a point and the fraction without
/// trailing zeros (`150000000` is `1.5`, `200000000` is `2`).
pub open spec fn decimal_text(units: nat) -> Seq<char> {
    let frac = units % (UNITS_PER_WHOLE as nat);
    if frac == 0 {
        nat_text(units / (UNITS_PER_WHOLE as nat))
    } else {
        nat_text(units / (UNITS_PER_WHOLE as nat)) + seq!['.'] + trim_zeros(padded_text(frac, 8))
    }
}

/// Relies on `String::from_iter` over characters: the string holds them in order.
#[verifier::external_body]
fn string_of_chars(chars: Vec<char>) -> (r: String)
    ensures
        r@ == chars@,
{
    chars.into_iter().collect()
}

fn digit(d: u128) -> (c: char)
    requires
        d < 10,
    ensures
        c == digit_char(d as nat),
{
    ((48 + d) as u8) as char
}

fn nat_digits(n: u128) -> (r: Vec<char>)
    ensures
        r@ == nat_text(n as nat),
    decreases n,
{
    if n < 10 {
        let mut v: Vec<char> = Vec::new();
        v.push(digit(n));
        v
    } else {
        let mut v = nat_digits(n / 10);
        v.push(digit(n % 10));
        v
    }
}

fn padded_digits(n: u128, width: usize) -> (r: Vec<char>)
    ensures
        r@ == padded_text(n as nat, width as nat),
    decreases width,
{
    if width == 0 {
        Vec::new()
    } else {
        let mut v = padded_digits(n / 10, width - 1);
        v.push(digit(n % 10));
        v
    }
}

fn trim_trailing_zeros(v: &mut Vec<char>)
    ensures
        final(v)@ == trim_zeros(old(v)@),
{
    while v.len() > 0 && v[v.len() - 1] == '0'
        invariant
            trim_zeros(v@) == trim_zeros(old(v)@),
        decreases v@.len(),
    {
        v.pop();
    }
}

/// Renders a quantity of `units` (of `10^-8`) as decimal text.
pub fn units_to_decimal(units: u128) -> (r: String)
    ensures
        r@ == decimal_text(units as nat),
{
    let whole = units / (UNITS_PER_WHOLE as u128);
    let frac = units % (UNITS_PER_WHOLE as u128);
    let mut text = nat_digits(whole);
    if frac != 0 {
        let mut f = padded_digits(frac, 8);
        trim_trailing_zeros(&mut f);
        let ghost head = text@;
        text.push('.');
        text.append(&mut f);
        assert(text@ =~= head + seq!['.'] + trim_zeros(padded_text(frac as nat, 8)));
    }
    string_of_chars(text)
}

pub open spec fn is_digit(c: char) -> bool {
    '0' <= c && c <= '9'
}

pub open spec fn all_digits(s: Seq<char>) -> bool {
    forall|i: int| 0 <= i < s.len() ==> is_digit(#[trigger] s[i])
}

/// The number that a run of decimal digits spells.
pub open spec fn digits_value(s: Seq<char>) -> nat
    decreases s.len(),
{
    if s.len() == 0 {
        0
    } else {
        digits_value(s.drop_last()) * 10 + ((s.last() as u32) - 48) as nat
    }
}

pub open spec fn pow10(n: nat) -> nat
    decreases n,
{
    if n == 0 {
        1
    } else {
        10 * pow10((n - 1) as nat)
    }
}

/// Whether `s` is a whole part, a point at `k`, and one to eight fraction digits.
pub open spec fn point_form(s: Seq<char>, k: int) -> bool {
    &&& 0 < k
    &&& k + 1 < s.len()
    &&& s.len() - k - 1 <= 8
    &&& s[k] == '.'
    &&& all_digits(s.subrange(0, k))
    &&& all_digits(s.subrange(k + 1, s.len() as int))
}

/// The quantity in units (of `10^-8`) that decimal text denotes: one or more
/// digits, then optionally a point and one to eight digits.
pub open spec fn decimal_units(s: Seq<char>) -> Option<nat> {
    if s.len() > 0 && all_digits(s) {
        Some(digits_value(s) * (UNITS_PER_WHOLE as nat))
    } else if exists|k: int| point_form(s, k) {
        let k = choose|k: int| point_form(s, k);
        let frac = s.subrange(k + 1, s.len() as int);
        Some(
            digits_value(s.subrange(0, k)) * (UNITS_PER_WHOLE as nat) + digits_value(frac) * pow10(
                (8 - frac.len()) as nat,
            ),
        )
    } else {
        None
    }
}

/// The quantity of decimal text where it fits a `u128`.
pub open spec fn parse_wide_spec(s: Seq<char>) -> Option<u128> {
    match decimal_units(s) {
        Some(v) => if v <= u128::MAX {
            Some(v as u128)
        } else {
            None
        },
        None => None,
    }
}

/// The quantity of decimal text where it fits a `u64`.
pub open spec fn parse_units_spec(s: Seq<char>) -> Option<u64> {
    match decimal_units(s) {
        Some(v) => if v <= u64::MAX {
            Some(v as u64)
        } else {
            None
        },
        None => None,
    }
}

proof fn lemma_digits_value_mono(s: Seq<char>, i: int)
    requires
        0 <= i <= s.len(),
    ensures
        digits_value(s.subrange(0, i)) <= digits_value(s),
    decreases s.len() - i,
{
    if i < s.len() {
        assert(s.subrange(0, i + 1).drop_last() =~= s.subrange(0, i));
        lemma_digits_value_mono(s, i + 1);
    }
    assert(s.subrange(0, s.len() as int) =~= s);
}

proof fn lemma_point_unique(s: Seq<char>, k: int, j: int)
    requires
        point_form(s, k),
        point_form(s, j),
    ensures
        k == j,
{
    if j < k {
        assert(s.subrange(0, k)[j] == s[j]);
    } else if k < j {
        assert(s.subrange(0, j)[k] == s[k]);
    }
}

/// Reads the digits of `text` from `from` to `to`, where all are digits and
/// their number fits a `u128`.
fn read_digits(text: &str, from: usize, to: usize) -> (r: Option<u128>)
    requires
        from <= to <= text@.len(),
    ensures
        r == (if all_digits(text@.subrange(from as int, to as int)) && digits_value(
            text@.subrange(from as int, to as int),
        ) <= u128::MAX {
            Some(digits_value(text@.subrange(from as int, to as int)) as u128)
        } else {
            None
        }),
{
    let ghost s = text@.subrange(from as int, to as int);
    let mut value: u128 = 0;
    let mut i: usize = from;
    while i < to
        invariant
            from <= i <= to <= text@.len(),
            s == text@.subrange(from as int, to as int),
            all_digits(s.subrange(0, i - from)),
            value == digits_value(s.subrange(0, i - from)),
        decreases to - i,
    {
        let c = text.get_char(i);
        assert(s[i - from] == c);
        if !('0' <= c && c <= '9') {
            return None;
        }
        assert(s.subrange(0, i - from + 1).drop_last() =~= s.subrange(0, i - from));
        let d = ((c as u32) - 48) as u128;
        proof {
            lemma_digits_value_mono(s, i - from + 1);
        }
        match value.checked_mul(10) {
            Some(m) => match m.checked_add(d) {
                Some(v) => {
                    value = v;
                },
                None => {
                    return None;
                },
            },
            None => {
                return None;
            },
        }
        i = i + 1;
    }
    assert(s.subrange(0, i - from) =~= s);
    Some(value)
}

fn pow10_exec(n: u64) -> (r: u64)
    requires
        n <= 8,
    ensures
        r == pow10(n as nat),
        r <= 100_000_000,
    decreases n,
{
    proof {
        lemma_pow10_bound(n as nat);
    }
    if n == 0 {
        1
    } else {
        10 * pow10_exec(n - 1)
    }
}

proof fn lemma_pow10_bound(n: nat)
    requires
        n <= 8,
    ensures
        pow10(n) <= 100_000_000,
    decreases 8 - n,
{
    if n < 8 {
        lemma_pow10_bound(n + 1);
        assert(pow10(n + 1) == 10 * pow10(n));
    } else {
        reveal_with_fuel(pow10, 9);
    }
}

/// Reads decimal text as a quantity in units (of `10^-8`): one or more
/// digits, optionally a point and one to eight more. `None` for other text
/// and for a quantity beyond `u128`.
pub fn parse_units_wide(text: &str) -> (r: Option<u128>)
    ensures
        r == parse_wide_spec(text@),
{
    let n = text.unicode_len();
    let ghost s = text@;
    let mut i: usize = 0;
    while i < n && text.get_char(i) != '.'
        invariant
            0 <= i <= n,
            n == s.len(),
            s == text@,
            forall|j: int| 0 <= j < i ==> s[j] != '.',
        decreases n - i,
    {
        i = i + 1;
    }
    if i == n {
        assert(s.subrange(0, n as int) =~= s);
        assert(!exists|k: int| point_form(s, k));
        if n == 0 {
            return None;
        }
        match read_digits(text, 0, n) {
            Some(w) => w.checked_mul(UNITS_PER_WHOLE as u128),
            None => {
                proof {
                    if all_digits(s) {
                        let v = digits_value(s);
                        assert(v * 100_000_000 > u128::MAX) by (nonlinear_arith)
                            requires
                                v > u128::MAX,
                        ;
                    }
                }
                None
            },
        }
    } else {
        assert(s[i as int] == '.');
        assert(!all_digits(s));
        assert forall|k: int| point_form(s, k) implies k == i by {
            if k < i {
            } else if i < k {
                assert(s.subrange(0, k)[i as int] == s[i as int]);
            }
        }
        if i == 0 || i + 1 == n || n - i - 1 > 8 {
            return None;
        }
        let ghost frac = s.subrange(i + 1, n as int);
        let w = match read_digits(text, 0, i) {
            Some(w) => w,
            None => {
                proof {
                    if all_digits(s.subrange(0, i as int)) && all_digits(frac) {
                        assert(point_form(s, i as int));
                        let v = digits_value(s.subrange(0, i as int));
                        let e = digits_value(frac) * pow10((8 - frac.len()) as nat);
                        assert(v * 100_000_000 + e > u128::MAX) by (nonlinear_arith)
                            requires
                                v > u128::MAX,
                                e >= 0,
                        ;
                    }
                }
                return None;
            },
        };
        let f = match read_digits(text, i + 1, n) {
            Some(f) => f,
            None => {
                proof {
                    if all_digits(frac) {
                        lemma_fraction_small(frac);
                    }
                }
                return None;
            },
        };
        let flen = (n - i - 1) as u64;
        assert(point_form(s, i as int));
        proof {
            lemma_fraction_small(frac);
        }
        let p = pow10_exec(8 - flen);
        assert((f as u128) * (p as u128) <= 100_000_000u128 * 100_000_000) by (nonlinear_arith)
            requires
                f <= 100_000_000,
                p <= 100_000_000,
        ;
        match w.checked_mul(UNITS_PER_WHOLE as u128) {
            Some(whole) => whole.checked_add(f * (p as u128)),
            None => {
                assert(w * 100_000_000 + f * p > u128::MAX) by (nonlinear_arith)
                    requires
                        w * 100_000_000 > u128::MAX,
                        f * p >= 0,
                ;
                None
            },
        }
    }
}

/// Reads decimal text as a quantity in units (of `10^-8`): one or more
/// digits, optionally a point and one to eight more. `None` for other text
/// and for a quantity beyond `u64`.
pub fn parse_units(text: &str) -> (r: Option<u64>)
    ensures
        r == parse_units_spec(text@),
{
    match parse_units_wide(text) {
        Some(v) => if v <= u64::MAX as u128 {
            Some(v as u64)
        } else {
            None
        },
        None => None,
    }
}

proof fn lemma_fraction_small(s: Seq<char>)
    requires
        s.len() <= 8,
        all_digits(s),
    ensures
        digits_value(s) < pow10(s.len()),
        pow10(s.len()) <= 100_000_000,
    decreases s.len(),
{
    lemma_pow10_bound(s.len());
    if s.len() > 0 {
        assert(all_digits(s.drop_last()));
        assert(is_digit(s[s.len() - 1]));
        lemma_fraction_small(s.drop_last());
    }
}

} // verus!
