//! Fixed-point decimal quantities and their rendering as text with a chosen
//! number of places after the decimal point.
use vstd::prelude::*;
use vstd::arithmetic::div_mod::{lemma_fundamental_div_mod, lemma_div_by_multiple, lemma_mod_multiples_basic};

verus! {

/// A non-negative decimal quantity, held as a whole number of millionths.
#[derive(Clone, Copy, Debug, PartialEq, Eq, Structural)]
pub struct Quantity {
    pub micros: u64,
}

/// Number of millionths in one whole unit.
pub const MICROS_PER_UNIT: u64 = 1_000_000;

/// Ten to the power `k`.
pub open spec fn pow10(k: nat) -> nat
    decreases k,
{
    if k == 0 {
        1
    } else {
        10 * pow10((k - 1) as nat)
    }
}

/// The character of a decimal digit below ten.
pub open spec fn digit_char(d: nat) -> char {
    if d == 0 {
        '0'
    } else if d == 1 {
        '1'
    } else if d == 2 {
        '2'
    } else if d == 3 {
        '3'
    } else if d == 4 {
        '4'
    } else if d == 5 {
        '5'
    } else if d == 6 {
        '6'
    } else if d == 7 {
        '7'
    } else if d == 8 {
        '8'
    } else {
        '9'
    }
}

pub open spec fn is_digit(c: char) -> bool {
    c == '0' || c == '1' || c == '2' || c == '3' || c == '4' || c == '5' || c == '6' || c
        == '7' || c == '8' || c == '9'
}

/// The shortest decimal notation of `n`, most significant digit first.
pub open spec fn digits_of(n: nat) -> Seq<char>
    decreases n,
{
    if n < 10 {
        seq![digit_char(n)]
    } else {
        digits_of(n / 10).push(digit_char(n % 10))
    }
}

/// The last `k` decimal digits of `n`, with leading zeros.
pub open spec fn padded_digits(n: nat, k: nat) -> Seq<char>
    decreases k,
{
    if k == 0 {
        seq![]
    } else {
        padded_digits(n / 10, (k - 1) as nat).push(digit_char(n % 10))
    }
}

/// `units` counted in steps of ten to the minus `k`, written with exactly `k`
/// places after the point (and no point when `k` is zero).
pub open spec fn fixed_text(units: nat, k: nat) -> Seq<char> {
    if k == 0 {
        digits_of(units)
    } else {
        digits_of(units / pow10(k)) + seq!['.'] + padded_digits(units % pow10(k), k)
    }
}

/// `micros` millionths rounded to `k` places, counted in steps of ten to the
/// minus `k`. A value exactly halfway between two steps goes to the even one.
pub open spec fn rounded(micros: nat, k: nat) -> nat {
    let unit = pow10((6 - k) as nat);
    let q = micros / unit;
    let r = micros % unit;
    if 2 * r > unit || (2 * r == unit && q % 2 == 1) {
        q + 1
    } else {
        q
    }
}

/// The text of `micros` millionths rounded to `k` places.
pub open spec fn decimal_text(micros: nat, k: nat) -> Seq<char> {
    fixed_text(rounded(micros, k), k)
}

/// The value, in millionths, that the text of `micros` rounded to `k` places
/// stands for.
pub open spec fn shown_micros(micros: nat, k: nat) -> nat {
    rounded(micros, k) * pow10((6 - k) as nat)
}

/// The value of a decimal digit character; zero for any other character.
pub open spec fn digit_value(c: char) -> nat {
    if c == '1' {
        1
    } else if c == '2' {
        2
    } else if c == '3' {
        3
    } else if c == '4' {
        4
    } else if c == '5' {
        5
    } else if c == '6' {
        6
    } else if c == '7' {
        7
    } else if c == '8' {
        8
    } else if c == '9' {
        9
    } else {
        0
    }
}

/// The number that a run of decimal digits denotes.
pub open spec fn digits_value(s: Seq<char>) -> nat
    decreases s.len(),
{
    if s.len() == 0 {
        0
    } else {
        digits_value(s.drop_last()) * 10 + digit_value(s.last())
    }
}

/// The index of the last '.' in `s`, or -1 when there is none.
pub open spec fn point_index(s: Seq<char>) -> int
    decreases s.len(),
{
    if s.len() == 0 {
        -1
    } else if s.last() == '.' {
        s.len() - 1
    } else {
        point_index(s.drop_last())
    }
}

/// The value in millionths of a decimal text with at most six places.
pub open spec fn text_micros(s: Seq<char>) -> nat {
    let i = point_index(s);
    if i < 0 {
        digits_value(s) * pow10(6)
    } else {
        digits_value(s.take(i)) * pow10(6) + digits_value(s.skip(i + 1)) * pow10(
            (6 - (s.len() - i - 1)) as nat,
        )
    }
}

pub proof fn lemma_digit_char(d: nat)
    requires
        d < 10,
    ensures
        is_digit(digit_char(d)),
        digit_value(digit_char(d)) == d,
        digit_char(d) != '.',
{
}

/// The shortest notation of a number is a non-empty run of digits that reads
/// back as the number.
pub proof fn lemma_digits_of(n: nat)
    ensures
        digits_of(n).len() >= 1,
        forall|i: int| 0 <= i < digits_of(n).len() ==> is_digit(#[trigger] digits_of(n)[i]),
        digits_value(digits_of(n)) == n,
    decreases n,
{
    lemma_digit_char(n % 10);
    if n >= 10 {
        lemma_digits_of(n / 10);
        let s = digits_of(n);
        assert(s.drop_last() =~= digits_of(n / 10));
        assert(s.last() == digit_char(n % 10));
        assert(digits_value(s) == (n / 10) * 10 + n % 10);
    } else {
        assert(digits_of(n).drop_last() =~= Seq::<char>::empty());
        assert(digits_value(Seq::<char>::empty()) == 0);
    }
}

/// `k` padded digits are `k` digits that read back as `n` when `n` fits.
pub proof fn lemma_padded_digits(n: nat, k: nat)
    ensures
        padded_digits(n, k).len() == k,
        forall|i: int| 0 <= i < k ==> is_digit(#[trigger] padded_digits(n, k)[i]),
        n < pow10(k) ==> digits_value(padded_digits(n, k)) == n,
    decreases k,
{
    if k > 0 {
        lemma_digit_char(n % 10);
        lemma_padded_digits(n / 10, (k - 1) as nat);
        let s = padded_digits(n, k);
        assert(s.drop_last() =~= padded_digits(n / 10, (k - 1) as nat));
        if n < pow10(k) {
            assert(n / 10 < pow10((k - 1) as nat));
        }
    }
}

proof fn lemma_point_index_digits(a: Seq<char>, b: Seq<char>)
    requires
        forall|i: int| 0 <= i < b.len() ==> is_digit(#[trigger] b[i]),
    ensures
        point_index(a + b) == point_index(a),
    decreases b.len(),
{
    if b.len() > 0 {
        assert((a + b).drop_last() =~= a + b.drop_last());
        assert((a + b).last() == b[b.len() - 1]);
        lemma_point_index_digits(a, b.drop_last());
    } else {
        assert(a + b =~= a);
    }
}

pub proof fn lemma_pow10_positive(k: nat)
    ensures
        pow10(k) >= 1,
    decreases k,
{
    if k > 0 {
        lemma_pow10_positive((k - 1) as nat);
    }
}

pub proof fn lemma_pow10_add(a: nat, b: nat)
    ensures
        pow10(a + b) == pow10(a) * pow10(b),
    decreases a,
{
    if a > 0 {
        let c = (a - 1) as nat;
        lemma_pow10_add(c, b);
        assert(pow10(a + b) == 10 * pow10(c + b));
        let x = pow10(c);
        let y = pow10(b);
        assert(10 * (x * y) == (10 * x) * y) by (nonlinear_arith);
        assert(pow10(a) == 10 * x);
    } else {
        assert(a + b == b);
        assert(pow10(a) == 1);
    }
}

/// The text of `units` with `k` places reads back as `units` steps of ten to
/// the minus `k`.
pub proof fn lemma_fixed_text_value(units: nat, k: nat)
    requires
        k <= 6,
    ensures
        text_micros(fixed_text(units, k)) == units * pow10((6 - k) as nat),
{
    reveal_with_fuel(pow10, 7);
    let s = fixed_text(units, k);
    lemma_digits_of(units / pow10(k));
    if k == 0 {
        lemma_digits_of(units);
        lemma_point_index_digits(Seq::<char>::empty(), s);
        assert(Seq::<char>::empty() + s =~= s);
    } else {
        let a = digits_of(units / pow10(k));
        let b = padded_digits(units % pow10(k), k);
        lemma_pow10_positive(k);
        lemma_padded_digits(units % pow10(k), k);
        assert(s =~= (a + seq!['.']) + b);
        lemma_point_index_digits(a + seq!['.'], b);
        assert((a + seq!['.']).drop_last() =~= a);
        assert(point_index(s) == a.len());
        assert(s.take(a.len() as int) =~= a);
        assert(s.skip(a.len() as int + 1) =~= b);
        lemma_fundamental_div_mod(units as int, pow10(k) as int);
        let p = pow10(k);
        let q = pow10((6 - k) as nat);
        lemma_pow10_add(k, (6 - k) as nat);
        let x = units / p;
        let r = units % p;
        assert(x * (p * q) + r * q == units * q) by (nonlinear_arith)
            requires
                units == p * x + r,
        ;
    }
}

/// With places, a text is a run of digits, a point, and exactly `k` digits.
pub proof fn lemma_fixed_text_shape(units: nat, k: nat)
    requires
        1 <= k,
    ensures
        ({
            let s = fixed_text(units, k);
            &&& s.len() >= k + 2
            &&& s[s.len() - k - 1] == '.'
            &&& forall|i: int| 0 <= i < s.len() && i != s.len() - k - 1 ==> is_digit(#[trigger] s[i])
        }),
{
    let p = pow10(k);
    let a = digits_of(units / p);
    let b = padded_digits(units % p, k);
    let s = fixed_text(units, k);
    lemma_digits_of(units / p);
    lemma_padded_digits(units % p, k);
    assert(s == a + seq!['.'] + b);
    assert forall|i: int| 0 <= i < s.len() && i != s.len() - k - 1 implies is_digit(#[trigger] s[i]) by {
        if i < a.len() {
            assert(s[i] == a[i]);
        } else {
            assert(s[i] == b[i - a.len() - 1]);
        }
    }
}

/// Rounding a value that the text of some rounding denotes gives that
/// rounding back.
pub proof fn lemma_rounded_shown(units: nat, k: nat)
    requires
        k <= 6,
    ensures
        rounded(units * pow10((6 - k) as nat), k) == units,
{
    let q = pow10((6 - k) as nat);
    lemma_pow10_positive((6 - k) as nat);
    lemma_div_by_multiple(units as int, q as int);
    lemma_mod_multiples_basic(units as int, q as int);
}

impl Quantity {
    pub fn from_micros(micros: u64) -> (r: Quantity)
        ensures
            r.micros == micros,
    {
        Quantity { micros }
    }

    /// The quantity of `whole` units and `micros` millionths.
    pub fn from_parts(whole: u64, micros: u64) -> (r: Option<Quantity>)
        ensures
            whole * 1_000_000 + micros <= u64::MAX ==> r == Some(
                Quantity { micros: (whole * 1_000_000 + micros) as u64 },
            ),
            whole * 1_000_000 + micros > u64::MAX ==> r is None,
    {
        if whole > (u64::MAX - micros) / MICROS_PER_UNIT {
            proof {
                assert(whole * 1_000_000 + micros > u64::MAX) by (nonlinear_arith)
                    requires
                        whole > (u64::MAX - micros) / 1_000_000,
                        micros <= u64::MAX,
                ;
            }
            None
        } else {
            proof {
                assert(whole * 1_000_000 + micros <= u64::MAX) by (nonlinear_arith)
                    requires
                        whole <= (u64::MAX - micros) / 1_000_000,
                        micros <= u64::MAX,
                ;
            }
            Some(Quantity { micros: whole * MICROS_PER_UNIT + micros })
        }
    }
}

/// Ten to the power `k`, for the places that a millionth can carry.
fn pow10_exec(k: u64) -> (r: u64)
    requires
        k <= 6,
    ensures
        r == pow10(k as nat),
        r >= 1,
{
    proof {
        reveal_with_fuel(pow10, 7);
    }
    if k == 0 {
        1
    } else if k == 1 {
        10
    } else if k == 2 {
        100
    } else if k == 3 {
        1000
    } else if k == 4 {
        10000
    } else if k == 5 {
        100000
    } else {
        1000000
    }
}

fn digit_str(d: u64) -> (r: &'static str)
    requires
        d < 10,
    ensures
        r@ == seq![digit_char(d as nat)],
{
    if d == 0 {
        proof {
            reveal_strlit("0");
        }
        "0"
    } else if d == 1 {
        proof {
            reveal_strlit("1");
        }
        "1"
    } else if d == 2 {
        proof {
            reveal_strlit("2");
        }
        "2"
    } else if d == 3 {
        proof {
            reveal_strlit("3");
        }
        "3"
    } else if d == 4 {
        proof {
            reveal_strlit("4");
        }
        "4"
    } else if d == 5 {
        proof {
            reveal_strlit("5");
        }
        "5"
    } else if d == 6 {
        proof {
            reveal_strlit("6");
        }
        "6"
    } else if d == 7 {
        proof {
            reveal_strlit("7");
        }
        "7"
    } else if d == 8 {
        proof {
            reveal_strlit("8");
        }
        "8"
    } else {
        proof {
            reveal_strlit("9");
        }
        "9"
    }
}

fn push_digits(s: &mut String, n: u64)
    ensures
        final(s)@ == old(s)@ + digits_of(n as nat),
    decreases n,
{
    if n < 10 {
        s.append(digit_str(n));
    } else {
        push_digits(s, n / 10);
        s.append(digit_str(n % 10));
        assert(final(s)@ =~= old(s)@ + digits_of(n as nat));
    }
}

fn push_padded_digits(s: &mut String, n: u64, k: u64)
    ensures
        final(s)@ == old(s)@ + padded_digits(n as nat, k as nat),
    decreases k,
{
    if k == 0 {
        assert(final(s)@ =~= old(s)@ + padded_digits(n as nat, k as nat));
    } else {
        push_padded_digits(s, n / 10, k - 1);
        s.append(digit_str(n % 10));
        assert(final(s)@ =~= old(s)@ + padded_digits(n as nat, k as nat));
    }
}

/// Writes `units` steps of ten to the minus `k` with exactly `k` places.
pub fn fixed_string(units: u64, k: u64) -> (r: String)
    requires
        k <= 6,
    ensures
        r@ == fixed_text(units as nat, k as nat),
{
    let mut s = String::new();
    if k == 0 {
        push_digits(&mut s, units);
        assert(s@ =~= fixed_text(units as nat, k as nat));
    } else {
        let p = pow10_exec(k);
        push_digits(&mut s, units / p);
        proof {
            reveal_strlit(".");
        }
        s.append(".");
        push_padded_digits(&mut s, units % p, k);
        assert(s@ =~= fixed_text(units as nat, k as nat));
    }
    s
}

/// `micros` millionths rounded to `k` places, in steps of ten to the minus `k`.
pub fn round_to_places(micros: u64, k: u64) -> (r: u64)
    requires
        k <= 6,
    ensures
        r == rounded(micros as nat, k as nat),
{
    let unit = pow10_exec(6 - k);
    let q = micros / unit;
    let r = micros % unit;
    if r > unit - r || (r == unit - r && q % 2 == 1) {
        proof {
            assert(q < u64::MAX) by (nonlinear_arith)
                requires
                    unit >= 2,
                    q == micros / unit,
                    micros <= u64::MAX,
            ;
        }
        q + 1
    } else {
        q
    }
}

/// Writes `q` rounded to `k` places.
pub fn decimal_string(q: Quantity, k: u64) -> (r: String)
    requires
        k <= 6,
    ensures
        r@ == decimal_text(q.micros as nat, k as nat),
{
    let units = round_to_places(q.micros, k);
    fixed_string(units, k)
}

} // verus!
