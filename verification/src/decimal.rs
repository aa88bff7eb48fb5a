//! Numbers as Game State Integration writes them ("17.5", "120", "-3",
//! "1.5e-7", and in strings also "inf", "infinity" and "nan" in any case,
//! as `str::parse::<f64>` takes them), read as fixed-point values in
//! thousandths, infinities and not-a-number.

use vstd::prelude::*;
use vstd::arithmetic::power::{lemma_pow_increases, pow};

use crate::text::chars_of;

verus! {

/// The largest magnitude a value in thousandths is held at; larger values
/// are clamped to it (10^12 whole units).
pub const MAX_MILLI: i64 = 1_000_000_000_000_000;

/// Exponents are read up to this magnitude and held there (10^21); beyond
/// it the value no longer depends on the exponent.
const EXPONENT_CAP: i128 = 1_000_000_000_000_000_000_000;

pub open spec fn is_digit(c: char) -> bool {
    '0' <= c && c <= '9'
}

pub open spec fn digit_value(c: char) -> int {
    c as int - '0' as int
}

pub open spec fn all_digits(d: Seq<char>) -> bool {
    forall|i: int| 0 <= i < d.len() ==> is_digit(#[trigger] d[i])
}

/// The number that a string of decimal digits denotes.
pub open spec fn digits_value(d: Seq<char>) -> int
    decreases d.len(),
{
    if d.len() == 0 {
        0
    } else {
        digits_value(d.drop_last()) * 10 + digit_value(d.last())
    }
}

/// The first position at or after `from` that holds `c`.
pub open spec fn first_index_from(s: Seq<char>, c: char, from: int) -> Option<int>
    decreases s.len() - from,
{
    if from < 0 || from >= s.len() {
        None
    } else if s[from] == c {
        Some(from)
    } else {
        first_index_from(s, c, from + 1)
    }
}

/// An exponent mark.
pub open spec fn is_exponent_mark(c: char) -> bool {
    c == 'e' || c == 'E'
}

/// The first position at or after `from` that holds an exponent mark.
pub open spec fn first_mark_from(s: Seq<char>, from: int) -> Option<int>
    decreases s.len() - from,
{
    if from < 0 || from >= s.len() {
        None
    } else if is_exponent_mark(s[from]) {
        Some(from)
    } else {
        first_mark_from(s, from + 1)
    }
}

/// The text starts with a sign.
pub open spec fn has_sign(s: Seq<char>) -> bool {
    s.len() > 0 && (s[0] == '+' || s[0] == '-')
}

/// The text starts with a minus sign.
pub open spec fn is_negative(s: Seq<char>) -> bool {
    has_sign(s) && s[0] == '-'
}

/// The text after its sign.
pub open spec fn unsigned_part(s: Seq<char>) -> Seq<char> {
    if has_sign(s) {
        s.skip(1)
    } else {
        s
    }
}

/// The unsigned text before the exponent mark.
pub open spec fn mantissa_part(b: Seq<char>) -> Seq<char> {
    match first_mark_from(b, 0) {
        Some(p) => b.take(p),
        None => b,
    }
}

/// The text after the exponent mark, if there is one.
pub open spec fn exponent_part(b: Seq<char>) -> Option<Seq<char>> {
    match first_mark_from(b, 0) {
        Some(p) => Some(b.skip(p + 1)),
        None => None,
    }
}

/// The digits before the decimal point.
pub open spec fn whole_part(m: Seq<char>) -> Seq<char> {
    match first_index_from(m, '.', 0) {
        Some(p) => m.take(p),
        None => m,
    }
}

/// The digits after the decimal point.
pub open spec fn fraction_part(m: Seq<char>) -> Seq<char> {
    match first_index_from(m, '.', 0) {
        Some(p) => m.skip(p + 1),
        None => Seq::empty(),
    }
}

/// The exponent: 0 without one, else `[+|-] digits`.
pub open spec fn exponent_value(e: Option<Seq<char>>) -> Option<int> {
    match e {
        None => Some(0),
        Some(t) => {
            let u = unsigned_part(t);
            if u.len() >= 1 && all_digits(u) {
                Some(
                    if is_negative(t) {
                        -digits_value(u)
                    } else {
                        digits_value(u)
                    },
                )
            } else {
                None
            }
        },
    }
}

/// `[+|-] digits [. digits] [(e|E) [+|-] digits]`, with at least one digit
/// before the exponent.
pub open spec fn is_decimal(s: Seq<char>) -> bool {
    let b = unsigned_part(s);
    let m = mantissa_part(b);
    &&& all_digits(whole_part(m))
    &&& all_digits(fraction_part(m))
    &&& whole_part(m).len() + fraction_part(m).len() >= 1
    &&& exponent_value(exponent_part(b)) is Some
}

/// All digits of the mantissa, without the point.
pub open spec fn mantissa_digits(s: Seq<char>) -> Seq<char> {
    let m = mantissa_part(unsigned_part(s));
    whole_part(m) + fraction_part(m)
}

/// How many places the mantissa's digits move left to count thousandths.
pub open spec fn point_shift(s: Seq<char>) -> int {
    let b = unsigned_part(s);
    exponent_value(exponent_part(b))->0 + 3 - fraction_part(mantissa_part(b)).len()
}

/// `k` zero digits.
pub open spec fn zeros(k: nat) -> Seq<char> {
    Seq::new(k, |i: int| '0')
}

/// The digits `d` moved `shift` places left (zeros appended) or right
/// (digits dropped).
pub open spec fn shifted_digits(d: Seq<char>, shift: int) -> Seq<char> {
    if shift >= 0 {
        d + zeros(shift as nat)
    } else if d.len() + shift > 0 {
        d.take(d.len() + shift)
    } else {
        Seq::empty()
    }
}

/// The magnitude in thousandths, rounded toward zero.
pub open spec fn milli_magnitude(s: Seq<char>) -> int {
    digits_value(shifted_digits(mantissa_digits(s), point_shift(s)))
}

/// The value of a decimal text in thousandths, rounded toward zero and
/// clamped to `MAX_MILLI` in magnitude; `None` for text that is not a
/// decimal number.
pub open spec fn decimal_milli(s: Seq<char>) -> Option<int> {
    if is_decimal(s) {
        let m = if milli_magnitude(s) > MAX_MILLI {
            MAX_MILLI as int
        } else {
            milli_magnitude(s)
        };
        Some(
            if is_negative(s) {
                -m
            } else {
                m
            },
        )
    } else {
        None
    }
}

/// `v` held at `MAX_MILLI`.
pub open spec fn capped(v: int) -> int {
    if v > MAX_MILLI {
        MAX_MILLI as int
    } else {
        v
    }
}

/// The digits that moving `d` by `shift` places drops (none when it moves
/// left).
pub open spec fn dropped_digits(d: Seq<char>, shift: int) -> Seq<char> {
    if shift >= 0 {
        Seq::empty()
    } else if d.len() + shift > 0 {
        d.skip(d.len() + shift)
    } else {
        d
    }
}

/// Every character is the digit zero.
pub open spec fn all_zeros(d: Seq<char>) -> bool {
    forall|i: int| 0 <= i < d.len() ==> d[i] == '0'
}

/// The value of a decimal text is a whole number of thousandths: the digits
/// past the third decimal place are all zero.
pub open spec fn whole_milli(s: Seq<char>) -> bool {
    all_zeros(dropped_digits(mantissa_digits(s), point_shift(s)))
}

/// A number that a text gives, as far as the tracker tells numbers apart.
#[derive(Clone, Copy, Debug, PartialEq, Eq, Structural)]
pub enum Reading {
    /// A finite value: `milli` is the value in thousandths rounded down,
    /// held at `MAX_MILLI` in magnitude; `whole` says whether the value is
    /// a whole number of thousandths.
    Finite { milli: i64, whole: bool },
    /// An infinity, with its sign.
    Infinite { negative: bool },
    /// Not a number.
    NotANumber,
}

/// The reading of a decimal text; `None` for text that is not a decimal
/// number. Rounding down a value that is not a whole number of thousandths
/// takes one thousandth off the magnitude rounded toward zero when the value
/// is negative.
pub open spec fn decimal_reading(s: Seq<char>) -> Option<Reading> {
    match decimal_milli(s) {
        Some(t) => Some(
            Reading::Finite {
                milli: (if is_negative(s) && !whole_milli(s) && t > -MAX_MILLI {
                    t - 1
                } else {
                    t
                }) as i64,
                whole: whole_milli(s),
            },
        ),
        None => None,
    }
}

/// `t` spells a word, each character in either of its two cases: the
/// word's letters in `lower` and in `upper`.
pub open spec fn word_is(t: Seq<char>, lower: Seq<char>, upper: Seq<char>) -> bool {
    t.len() == lower.len() && forall|i: int|
        0 <= i < t.len() ==> t[i] == lower[i] || t[i] == upper[i]
}

/// The reading of a numeric text: `[+|-]` followed by `inf`, `infinity` or
/// `nan` in any case, or a decimal number.
pub open spec fn number_reading(s: Seq<char>) -> Option<Reading> {
    let u = unsigned_part(s);
    if word_is(u, seq!['i', 'n', 'f'], seq!['I', 'N', 'F']) || word_is(
        u,
        seq!['i', 'n', 'f', 'i', 'n', 'i', 't', 'y'],
        seq!['I', 'N', 'F', 'I', 'N', 'I', 'T', 'Y'],
    ) {
        Some(Reading::Infinite { negative: is_negative(s) })
    } else if word_is(u, seq!['n', 'a', 'n'], seq!['N', 'A', 'N']) {
        Some(Reading::NotANumber)
    } else {
        decimal_reading(s)
    }
}

/// The reading is of a value above zero.
pub open spec fn reading_positive(r: Reading) -> bool {
    match r {
        Reading::Finite { milli, whole } => milli > 0 || (milli == 0 && !whole),
        Reading::Infinite { negative } => !negative,
        Reading::NotANumber => false,
    }
}

// ----------------------------------------------------------------------------
// Lemmas
// ----------------------------------------------------------------------------

proof fn lemma_digits_value_nonneg(d: Seq<char>)
    requires
        all_digits(d),
    ensures
        digits_value(d) >= 0,
    decreases d.len(),
{
    if d.len() > 0 {
        assert(is_digit(d[d.len() - 1]));
        lemma_digits_value_nonneg(d.drop_last());
    }
}

proof fn lemma_digits_value_push(d: Seq<char>, c: char)
    ensures
        digits_value(d.push(c)) == digits_value(d) * 10 + digit_value(c),
{
    assert(d.push(c).drop_last() =~= d);
}

/// Appending zeros multiplies by a power of ten.
proof fn lemma_digits_zeros(d: Seq<char>, k: nat)
    ensures
        digits_value(d + zeros(k)) == digits_value(d) * pow(10, k),
    decreases k,
{
    if k == 0 {
        assert(d + zeros(0) =~= d);
        assert(pow(10, 0) == 1) by {
            vstd::arithmetic::power::lemma_pow0(10);
        }
    } else {
        lemma_digits_zeros(d, (k - 1) as nat);
        assert(d + zeros(k) =~= (d + zeros((k - 1) as nat)).push('0'));
        lemma_digits_value_push(d + zeros((k - 1) as nat), '0');
        let p = pow(10, (k - 1) as nat);
        reveal(pow);
        assert(pow(10, k) == 10 * p);
        let v = digits_value(d);
        assert(v * p * 10 == v * (10 * p)) by (nonlinear_arith);
    }
}

/// A string of digits is worth at least one when one of them is not zero.
proof fn lemma_digits_positive(d: Seq<char>, i: int)
    requires
        all_digits(d),
        0 <= i < d.len(),
        d[i] != '0',
    ensures
        digits_value(d) >= 1,
    decreases d.len(),
{
    lemma_digits_value_nonneg(d);
    if i < d.len() - 1 {
        assert(all_digits(d.drop_last()));
        lemma_digits_positive(d.drop_last(), i);
    } else {
        lemma_digits_value_nonneg(d.drop_last());
    }
}

/// A string of zeros is worth nothing.
proof fn lemma_digits_zero(d: Seq<char>)
    requires
        forall|i: int| 0 <= i < d.len() ==> d[i] == '0',
    ensures
        digits_value(d) == 0,
    decreases d.len(),
{
    if d.len() > 0 {
        lemma_digits_zero(d.drop_last());
    }
}

/// Moving a string of digits sixteen places or more to the left makes it
/// worth nothing or more than `MAX_MILLI`.
proof fn lemma_far_shift(d: Seq<char>, k: nat)
    requires
        all_digits(d),
        k >= 16,
    ensures
        digits_value(d) == 0 ==> digits_value(d + zeros(k)) == 0,
        digits_value(d) != 0 ==> digits_value(d + zeros(k)) > MAX_MILLI,
{
    lemma_digits_zeros(d, k);
    lemma_digits_value_nonneg(d);
    if digits_value(d) != 0 {
        lemma_pow_increases(10, 16, k);
        assert(pow(10, 16) == 10000000000000000) by {
            reveal_with_fuel(pow, 17);
        }
        let v = digits_value(d);
        let p = pow(10, k);
        assert(v * p >= p) by (nonlinear_arith)
            requires
                v >= 1,
                p >= 0,
        ;
    }
}

proof fn lemma_first_index_is(s: Seq<char>, c: char, from: int, q: int)
    requires
        0 <= from <= q <= s.len(),
        forall|j: int| from <= j < q ==> s[j] != c,
        q < s.len() ==> s[q] == c,
    ensures
        first_index_from(s, c, from) == if q < s.len() {
            Some(q)
        } else {
            None::<int>
        },
    decreases q - from,
{
    if from < q {
        lemma_first_index_is(s, c, from + 1, q);
    }
}

proof fn lemma_first_mark_is(s: Seq<char>, from: int, q: int)
    requires
        0 <= from <= q <= s.len(),
        forall|j: int| from <= j < q ==> !is_exponent_mark(s[j]),
        q < s.len() ==> is_exponent_mark(s[q]),
    ensures
        first_mark_from(s, from) == if q < s.len() {
            Some(q)
        } else {
            None::<int>
        },
    decreases q - from,
{
    if from < q {
        lemma_first_mark_is(s, from + 1, q);
    }
}

/// Reading the exponent held at `EXPONENT_CAP` moves the point to where the
/// exact exponent would, as far as the held value can tell.
proof fn lemma_shift_agrees(d: Seq<char>, shift: int, exact: int)
    requires
        all_digits(d),
        d.len() <= usize::MAX,
        shift == exact || (shift >= EXPONENT_CAP + 3 - d.len() && exact >= shift) || (shift <= 3
            - EXPONENT_CAP && exact <= shift),
    ensures
        capped(digits_value(shifted_digits(d, shift))) == capped(
            digits_value(shifted_digits(d, exact)),
        ),
{
    if shift != exact {
        if shift >= EXPONENT_CAP + 3 - d.len() {
            lemma_far_shift(d, shift as nat);
            lemma_far_shift(d, exact as nat);
        }
    }
}

/// Reading the exponent held at `EXPONENT_CAP` drops the digits that the
/// exact exponent would.
proof fn lemma_dropped_agrees(d: Seq<char>, shift: int, exact: int)
    requires
        d.len() <= usize::MAX,
        shift == exact || (shift >= EXPONENT_CAP + 3 - d.len() && exact >= shift) || (shift <= 3
            - EXPONENT_CAP && exact <= shift),
    ensures
        dropped_digits(d, shift) == dropped_digits(d, exact),
{
    assert(usize::MAX <= u64::MAX);
}

// ----------------------------------------------------------------------------
// Reading
// ----------------------------------------------------------------------------

/// The first position in `[from, to)` that holds `c`, or `to`.
fn find_char(cs: &Vec<char>, from: usize, to: usize, c: char) -> (p: usize)
    requires
        from <= to <= cs@.len(),
    ensures
        from <= p <= to,
        forall|j: int| from <= j < p ==> cs@[j] != c,
        p < to ==> cs@[p as int] == c,
{
    let mut p = from;
    while p < to && cs[p] != c
        invariant
            from <= p <= to,
            to <= cs@.len(),
            forall|j: int| from <= j < p ==> cs@[j] != c,
        decreases to - p,
    {
        p = p + 1;
    }
    p
}

/// The first position in `[from, to)` that holds an exponent mark, or `to`.
fn find_mark(cs: &Vec<char>, from: usize, to: usize) -> (p: usize)
    requires
        from <= to <= cs@.len(),
    ensures
        from <= p <= to,
        forall|j: int| from <= j < p ==> !is_exponent_mark(cs@[j]),
        p < to ==> is_exponent_mark(cs@[p as int]),
{
    let mut p = from;
    while p < to && cs[p] != 'e' && cs[p] != 'E'
        invariant
            from <= p <= to,
            to <= cs@.len(),
            forall|j: int| from <= j < p ==> !is_exponent_mark(cs@[j]),
        decreases to - p,
    {
        p = p + 1;
    }
    p
}

/// Whether `[from, to)` holds digits only.
fn digits_only(cs: &Vec<char>, from: usize, to: usize) -> (r: bool)
    requires
        from <= to <= cs@.len(),
    ensures
        r == all_digits(cs@.subrange(from as int, to as int)),
{
    let mut p = from;
    while p < to
        invariant
            from <= p <= to,
            to <= cs@.len(),
            forall|j: int| from <= j < p ==> is_digit(cs@[j]),
        decreases to - p,
    {
        let c = cs[p];
        if !('0' <= c && c <= '9') {
            assert(cs@.subrange(from as int, to as int)[p - from] == c);
            return false;
        }
        p = p + 1;
    }
    assert forall|i: int| 0 <= i < to - from implies is_digit(
        #[trigger] cs@.subrange(from as int, to as int)[i],
    ) by {
        assert(cs@.subrange(from as int, to as int)[i] == cs@[from + i]);
    }
    true
}

/// The value of the first `k` digits of `d`, held at `MAX_MILLI`.
fn capped_prefix_value(d: &Vec<char>, k: usize) -> (v: u64)
    requires
        k <= d@.len(),
        all_digits(d@),
    ensures
        v == capped(digits_value(d@.take(k as int))),
{
    let cap = MAX_MILLI as u64;
    let mut acc: u64 = 0;
    let mut i: usize = 0;
    assert(d@.take(0) =~= Seq::<char>::empty());
    while i < k
        invariant
            i <= k,
            k <= d@.len(),
            all_digits(d@),
            cap == MAX_MILLI,
            acc == capped(digits_value(d@.take(i as int))),
        decreases k - i,
    {
        let c = d[i];
        assert(is_digit(d@[i as int]));
        let digit = (c as u32 - '0' as u32) as u64;
        proof {
            assert(d@.take(i + 1) =~= d@.take(i as int).push(c));
            lemma_digits_value_push(d@.take(i as int), c);
            assert(all_digits(d@.take(i as int)));
            lemma_digits_value_nonneg(d@.take(i as int));
        }
        if acc >= cap {
            acc = cap;
        } else {
            let next = acc * 10 + digit;
            acc = if next > cap {
                cap
            } else {
                next
            };
        }
        i = i + 1;
    }
    acc
}

/// The value of `d` with `shift` zeros appended, held at `MAX_MILLI`.
fn capped_shifted_value(d: &Vec<char>, shift: i128) -> (v: u64)
    requires
        all_digits(d@),
        shift >= 0,
    ensures
        v == capped(digits_value(d@ + zeros(shift as nat))),
{
    let cap = MAX_MILLI as u64;
    let mut acc = capped_prefix_value(d, d.len());
    assert(d@.take(d@.len() as int) =~= d@);
    assert(d@ + zeros(0) =~= d@);
    proof {
        lemma_digits_value_nonneg(d@);
    }
    let mut k: i128 = 0;
    while k < shift
        invariant
            0 <= k <= shift,
            all_digits(d@),
            cap == MAX_MILLI,
            acc == capped(digits_value(d@ + zeros(k as nat))),
            digits_value(d@ + zeros(k as nat)) >= 0,
        decreases shift - k,
    {
        if acc == 0 || acc == cap {
            proof {
                lemma_digits_zeros(d@, k as nat);
                lemma_digits_zeros(d@, shift as nat);
                lemma_digits_value_nonneg(d@);
                lemma_pow_increases(10, k as nat, shift as nat);
                vstd::arithmetic::power::lemma_pow_positive(10, k as nat);
                let v = digits_value(d@);
                let p = pow(10, k as nat);
                let q = pow(10, shift as nat);
                assert(v * p <= v * q) by (nonlinear_arith)
                    requires
                        v >= 0,
                        p <= q,
                ;
                if acc == 0 {
                    assert(v * p == 0);
                    assert(v == 0) by (nonlinear_arith)
                        requires
                            v * p == 0,
                            p > 0,
                    ;
                    assert(v * q == 0) by (nonlinear_arith)
                        requires
                            v == 0,
                    ;
                }
            }
            return acc;
        }
        proof {
            assert(d@ + zeros((k + 1) as nat) =~= (d@ + zeros(k as nat)).push('0'));
            lemma_digits_value_push(d@ + zeros(k as nat), '0');
        }
        let next = acc * 10;
        acc = if next > cap {
            cap
        } else {
            next
        };
        k = k + 1;
    }
    acc
}

/// Reads the text after an exponent mark, `[+|-] digits`, held at
/// `EXPONENT_CAP` in magnitude.
fn read_exponent(cs: &Vec<char>, from: usize) -> (r: Option<i128>)
    requires
        from <= cs@.len(),
    ensures
        match r {
            None => exponent_value(Some(cs@.subrange(from as int, cs@.len() as int))) is None,
            Some(x) => exponent_value(Some(cs@.subrange(from as int, cs@.len() as int))) matches Some(
                ev,
            ) && -EXPONENT_CAP <= x <= EXPONENT_CAP && (x == ev || (x == EXPONENT_CAP && ev
                >= EXPONENT_CAP) || (x == -EXPONENT_CAP && ev <= -EXPONENT_CAP)),
        },
{
    let n = cs.len();
    let ghost t = cs@.subrange(from as int, n as int);
    let mut digits_start = from;
    let mut negative = false;
    if digits_start < n && (cs[digits_start] == '+' || cs[digits_start] == '-') {
        negative = cs[digits_start] == '-';
        digits_start = digits_start + 1;
    }
    let ghost u = unsigned_part(t);
    assert(u =~= cs@.subrange(digits_start as int, n as int));
    if digits_start == n || !digits_only(cs, digits_start, n) {
        return None;
    }
    let mut q = digits_start;
    let mut value: i128 = 0;
    while q < n
        invariant
            digits_start <= q <= n,
            n == cs@.len(),
            all_digits(cs@.subrange(digits_start as int, n as int)),
            0 <= value <= EXPONENT_CAP,
            value == if digits_value(cs@.subrange(digits_start as int, q as int)) > EXPONENT_CAP {
                EXPONENT_CAP as int
            } else {
                digits_value(cs@.subrange(digits_start as int, q as int))
            },
        decreases n - q,
    {
        let c = cs[q];
        assert(cs@.subrange(digits_start as int, n as int)[q - digits_start] == c);
        let digit = (c as u32 - '0' as u32) as i128;
        proof {
            assert(cs@.subrange(digits_start as int, q + 1) =~= cs@.subrange(
                digits_start as int,
                q as int,
            ).push(c));
            lemma_digits_value_push(cs@.subrange(digits_start as int, q as int), c);
            assert(all_digits(cs@.subrange(digits_start as int, q as int)));
            lemma_digits_value_nonneg(cs@.subrange(digits_start as int, q as int));
        }
        if value >= EXPONENT_CAP {
            value = EXPONENT_CAP;
        } else {
            let next = value * 10 + digit;
            value = if next > EXPONENT_CAP {
                EXPONENT_CAP
            } else {
                next
            };
        }
        q = q + 1;
    }
    assert(cs@.subrange(digits_start as int, n as int) == u);
    assert(negative == is_negative(t));
    Some(
        if negative {
            -value
        } else {
            value
        },
    )
}

/// The digits in `[start, point)` followed by those in `[frac_start, mark)`.
fn join_digits(cs: &Vec<char>, start: usize, point: usize, frac_start: usize, mark: usize) -> (d: Vec<
    char,
>)
    requires
        start <= point <= frac_start <= mark <= cs@.len(),
    ensures
        d@ == cs@.subrange(start as int, point as int) + cs@.subrange(
            frac_start as int,
            mark as int,
        ),
{
    let mut d: Vec<char> = Vec::new();
    let mut i = start;
    while i < point
        invariant
            start <= i <= point,
            point <= cs@.len(),
            d@ == cs@.subrange(start as int, i as int),
        decreases point - i,
    {
        d.push(cs[i]);
        i = i + 1;
        assert(d@ =~= cs@.subrange(start as int, i as int));
    }
    let mut i = frac_start;
    assert(d@ =~= cs@.subrange(start as int, point as int) + cs@.subrange(
        frac_start as int,
        i as int,
    ));
    while i < mark
        invariant
            frac_start <= i <= mark,
            mark <= cs@.len(),
            d@ == cs@.subrange(start as int, point as int) + cs@.subrange(
                frac_start as int,
                i as int,
            ),
        decreases mark - i,
    {
        d.push(cs[i]);
        i = i + 1;
        assert(d@ =~= cs@.subrange(start as int, point as int) + cs@.subrange(
            frac_start as int,
            i as int,
        ));
    }
    d
}

/// The value of the digits `d` moved `shift` places, held at `MAX_MILLI`.
fn shifted_value(d: &Vec<char>, shift: i128) -> (v: u64)
    requires
        all_digits(d@),
    ensures
        v == capped(digits_value(shifted_digits(d@, shift as int))),
{
    if shift >= 0 {
        capped_shifted_value(d, shift)
    } else if shift > -(d.len() as i128) {
        let keep = ((d.len() as i128) + shift) as usize;
        capped_prefix_value(d, keep)
    } else {
        proof {
            assert(digits_value(Seq::<char>::empty()) == 0);
        }
        0
    }
}

/// Whether the digits that moving `d` by `shift` places drops are all zero.
fn dropped_zeros(d: &Vec<char>, shift: i128) -> (r: bool)
    ensures
        r == all_zeros(dropped_digits(d@, shift as int)),
{
    if shift >= 0 {
        return true;
    }
    let from: usize = if shift > -(d.len() as i128) {
        ((d.len() as i128) + shift) as usize
    } else {
        0
    };
    let ghost dropped = dropped_digits(d@, shift as int);
    assert(dropped =~= d@.skip(from as int));
    let mut i = from;
    while i < d.len()
        invariant
            from <= i <= d@.len(),
            dropped == d@.skip(from as int),
            dropped == dropped_digits(d@, shift as int),
            forall|j: int| from <= j < i ==> d@[j] == '0',
        decreases d.len() - i,
    {
        if d[i] != '0' {
            assert(dropped.len() == d@.len() - from);
            assert(dropped[i - from] == d@[i as int]);
            assert(dropped[i - from] != '0');
            return false;
        }
        i = i + 1;
    }
    assert forall|j: int| 0 <= j < dropped.len() implies dropped[j] == '0' by {
        assert(dropped[j] == d@[from + j]);
    }
    true
}

/// Reads a decimal text: its value in thousandths rounded toward zero, its
/// sign, and whether the value is a whole number of thousandths.
#[verifier::rlimit(80)]
fn decimal_parts(text: &str) -> (r: Option<(i64, bool, bool)>)
    ensures
        match r {
            Some((v, negative, whole)) => decimal_milli(text@) == Some(v as int) && negative
                == is_negative(text@) && whole == whole_milli(text@),
            None => decimal_milli(text@) is None,
        },
        r matches Some((v, _, _)) ==> -MAX_MILLI <= v <= MAX_MILLI,
{
    let cs = chars_of(text);
    let ghost s = text@;
    let n = cs.len();
    let mut start: usize = 0;
    let mut negative = false;
    if n > 0 && (cs[0] == '+' || cs[0] == '-') {
        negative = cs[0] == '-';
        start = 1;
    }
    let ghost b = unsigned_part(s);
    assert(b =~= s.subrange(start as int, n as int));

    // The mantissa ends at the first exponent mark.
    let mark = find_mark(&cs, start, n);
    proof {
        lemma_first_mark_is(b, 0, mark - start);
    }
    let ghost m = mantissa_part(b);
    assert(m =~= s.subrange(start as int, mark as int));

    // The point splits the mantissa.
    let point = find_char(&cs, start, mark, '.');
    proof {
        lemma_first_index_is(m, '.', 0, point - start);
    }
    let ghost whole = whole_part(m);
    let ghost frac = fraction_part(m);
    assert(whole =~= s.subrange(start as int, point as int));
    let frac_start = if point < mark {
        point + 1
    } else {
        mark
    };
    assert(frac =~= s.subrange(frac_start as int, mark as int));
    if !digits_only(&cs, start, point) || !digits_only(&cs, frac_start, mark) {
        return None;
    }
    let frac_len = mark - frac_start;
    if point - start + frac_len == 0 {
        return None;
    }

    // The exponent.
    let ghost e = exponent_part(b);
    let exponent: i128 = if mark < n {
        assert(e == Some(s.subrange(mark + 1, n as int)));
        match read_exponent(&cs, mark + 1) {
            Some(x) => x,
            None => {
                return None;
            },
        }
    } else {
        assert(e is None);
        0
    };
    assert(is_decimal(s));

    let d = join_digits(&cs, start, point, frac_start, mark);
    assert(d@ =~= mantissa_digits(s));
    assert(all_digits(d@));

    // Move the point: the exponent, three places for thousandths, less the
    // fraction's digits.
    let shift: i128 = exponent + 3 - frac_len as i128;
    let magnitude = shifted_value(&d, shift);
    proof {
        assert(frac_len == frac.len());
        lemma_shift_agrees(d@, shift as int, point_shift(s));
    }
    let whole = dropped_zeros(&d, shift);
    proof {
        lemma_dropped_agrees(d@, shift as int, point_shift(s));
    }
    let value = magnitude as i64;
    if negative {
        Some((-value, negative, whole))
    } else {
        Some((value, negative, whole))
    }
}

/// Reads a decimal text as thousandths: `"17.5"` gives 17500, `"1.5e-2"`
/// gives 15.
pub fn parse_decimal_milli(text: &str) -> (r: Option<i64>)
    ensures
        match r {
            Some(v) => decimal_milli(text@) == Some(v as int),
            None => decimal_milli(text@) is None,
        },
        r matches Some(v) ==> -MAX_MILLI <= v <= MAX_MILLI,
{
    match decimal_parts(text) {
        Some((v, _, _)) => Some(v),
        None => None,
    }
}

/// Reads a decimal text as a finite reading: `"0.0004"` gives 0 thousandths,
/// not whole; `"-0.0004"` gives -1 thousandth, not whole.
pub fn read_decimal(text: &str) -> (r: Option<Reading>)
    ensures
        r == decimal_reading(text@),
        r matches Some(Reading::Finite { milli, .. }) ==> -MAX_MILLI <= milli <= MAX_MILLI,
        r matches Some(x) ==> x is Finite,
{
    match decimal_parts(text) {
        Some((t, negative, whole)) => {
            let milli = if negative && !whole && t > -MAX_MILLI {
                t - 1
            } else {
                t
            };
            Some(Reading::Finite { milli, whole })
        },
        None => None,
    }
}

/// Whether the characters of `cs` from `from` on spell the word whose
/// letters are `lower` and `upper` in its two cases.
fn word_at(cs: &Vec<char>, from: usize, lower: &Vec<char>, upper: &Vec<char>) -> (r: bool)
    requires
        from <= cs@.len(),
        upper@.len() == lower@.len(),
    ensures
        r == word_is(cs@.skip(from as int), lower@, upper@),
{
    let ghost t = cs@.skip(from as int);
    if cs.len() - from != lower.len() {
        return false;
    }
    let mut j: usize = from;
    while j < cs.len()
        invariant
            from <= j <= cs@.len(),
            upper@.len() == lower@.len(),
            t == cs@.skip(from as int),
            from + lower@.len() == cs@.len(),
            t.len() == lower@.len(),
            forall|k: int| 0 <= k < j - from ==> t[k] == lower@[k] || t[k] == upper@[k],
        decreases cs.len() - j,
    {
        let c = cs[j];
        let i = j - from;
        assert(t[i as int] == c);
        if c != lower[i] && c != upper[i] {
            return false;
        }
        j = j + 1;
    }
    true
}

/// Reads a numeric text as `str::parse::<f64>` accepts it: an infinity or
/// not-a-number word, or a decimal number. `"-INF"` gives a negative
/// infinity, `"nan"` not a number, `"17.5"` 17500 thousandths.
pub fn read_number(text: &str) -> (r: Option<Reading>)
    ensures
        r == number_reading(text@),
        r matches Some(Reading::Finite { milli, .. }) ==> -MAX_MILLI <= milli <= MAX_MILLI,
{
    let cs = chars_of(text);
    let n = cs.len();
    let mut start: usize = 0;
    let mut negative = false;
    if n > 0 && (cs[0] == '+' || cs[0] == '-') {
        negative = cs[0] == '-';
        start = 1;
    }
    assert(unsigned_part(text@) =~= cs@.skip(start as int));
    let inf = vec!['i', 'n', 'f'];
    let inf_upper = vec!['I', 'N', 'F'];
    let infinity = vec!['i', 'n', 'f', 'i', 'n', 'i', 't', 'y'];
    let infinity_upper = vec!['I', 'N', 'F', 'I', 'N', 'I', 'T', 'Y'];
    let nan = vec!['n', 'a', 'n'];
    let nan_upper = vec!['N', 'A', 'N'];
    assert(inf@ =~= seq!['i', 'n', 'f']);
    assert(inf_upper@ =~= seq!['I', 'N', 'F']);
    assert(infinity@ =~= seq!['i', 'n', 'f', 'i', 'n', 'i', 't', 'y']);
    assert(infinity_upper@ =~= seq!['I', 'N', 'F', 'I', 'N', 'I', 'T', 'Y']);
    assert(nan@ =~= seq!['n', 'a', 'n']);
    assert(nan_upper@ =~= seq!['N', 'A', 'N']);
    if word_at(&cs, start, &inf, &inf_upper) || word_at(&cs, start, &infinity, &infinity_upper) {
        return Some(Reading::Infinite { negative });
    }
    if word_at(&cs, start, &nan, &nan_upper) {
        return Some(Reading::NotANumber);
    }
    read_decimal(text)
}

} // verus!
