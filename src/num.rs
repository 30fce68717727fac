//! Numbers as the tools print them: digit runs, signed integers, and decimal
//! fractions kept exactly as a mantissa and a power of ten.
use vstd::prelude::*;
use crate::text::{is_digit, is_num_char};

verus! {

/// A non-negative decimal number, exactly `mantissa / 10^scale`.
#[derive(Debug, Clone, Copy, PartialEq, Eq, Structural)]
pub struct Decimal {
    pub mantissa: u64,
    pub scale: u32,
}

pub open spec fn pow10(k: nat) -> nat
    decreases k,
{
    if k == 0 {
        1
    } else {
        10 * pow10((k - 1) as nat)
    }
}

pub proof fn lemma_pow10_ge(k: nat, j: nat)
    requires
        j <= k,
    ensures
        pow10(j) <= pow10(k),
        pow10(j) >= 1,
    decreases k,
{
    reveal_with_fuel(pow10, 2);
    if k > j {
        lemma_pow10_ge((k - 1) as nat, j);
    } else if k > 0 {
        lemma_pow10_ge((k - 1) as nat, (k - 1) as nat);
    }
}

proof fn lemma_pow10_values()
    ensures
        pow10(18) == 1000000000000000000nat,
        pow10(19) == 10000000000000000000nat,
        pow10(20) == 100000000000000000000nat,
{
    reveal_with_fuel(pow10, 21);
}

impl Decimal {
    /// The decimal `mantissa / 10^scale`.
    pub fn new(mantissa: u64, scale: u32) -> (r: Decimal)
        ensures
            r.mantissa == mantissa,
            r.scale == scale,
    {
        Decimal { mantissa, scale }
    }

    /// Is this number below the whole number `n`?
    pub open spec fn below(self, n: nat) -> bool {
        self.mantissa < n * pow10(self.scale as nat)
    }

    pub fn is_below(&self, n: u64) -> (r: bool)
        requires
            1 <= n <= 10,
        ensures
            r == self.below(n as nat),
    {
        if self.scale > 19 {
            proof {
                lemma_pow10_ge(self.scale as nat, 20);
                lemma_pow10_values();
                assert(n * pow10(self.scale as nat) >= pow10(self.scale as nat)) by (nonlinear_arith)
                    requires n >= 1;
                assert(self.mantissa < pow10(self.scale as nat));
            }
            true
        } else {
            let mut p: u64 = 1;
            let mut k: u32 = 0;
            while k < self.scale
                invariant
                    k <= self.scale <= 19,
                    p as nat == pow10(k as nat),
                decreases self.scale - k,
            {
                proof {
                    lemma_pow10_ge(19, (k + 1) as nat);
                    lemma_pow10_values();
                }
                p = p * 10;
                k = k + 1;
            }
            proof {
                lemma_pow10_ge(19, self.scale as nat);
                lemma_pow10_values();
                assert(n * p <= 10 * 10000000000000000000nat) by (nonlinear_arith)
                    requires n <= 10, p <= 10000000000000000000nat;
            }
            (self.mantissa as u128) < (n as u128) * (p as u128)
        }
    }
}

/// The value of a digit character.
pub open spec fn digit_val(c: char) -> nat {
    (c as u32 - '0' as u32) as nat
}

/// The value of a run of digits, most significant first.
pub open spec fn digits_val(t: Seq<char>) -> nat
    decreases t.len(),
{
    if t.len() == 0 {
        0
    } else {
        digits_val(t.drop_last()) * 10 + digit_val(t.last())
    }
}

pub open spec fn all_digits(t: Seq<char>) -> bool {
    forall|i: int| 0 <= i < t.len() ==> is_digit(#[trigger] t[i])
}

proof fn lemma_digits_val_mono(t: Seq<char>, k: int)
    requires
        0 <= k <= t.len(),
    ensures
        digits_val(t.subrange(0, k)) <= digits_val(t),
    decreases t.len(),
{
    if k < t.len() {
        assert(t.drop_last().subrange(0, k) =~= t.subrange(0, k));
        lemma_digits_val_mono(t.drop_last(), k);
    } else {
        assert(t.subrange(0, k) =~= t);
    }
}

/// Reads the digits `s[from..to]` as a number, or `None` where it exceeds `limit`.
pub fn parse_digits(s: &[char], from: usize, to: usize, limit: u64) -> (r: Option<u64>)
    requires
        from <= to <= s@.len(),
        all_digits(s@.subrange(from as int, to as int)),
    ensures
        r matches Some(v) ==> v as nat == digits_val(s@.subrange(from as int, to as int)) && v <= limit,
        r is None ==> digits_val(s@.subrange(from as int, to as int)) > limit,
{
    let ghost t = s@.subrange(from as int, to as int);
    let mut v: u64 = 0;
    let mut i: usize = from;
    while i < to
        invariant
            from <= i <= to <= s@.len(),
            t == s@.subrange(from as int, to as int),
            all_digits(t),
            v as nat == digits_val(s@.subrange(from as int, i as int)),
            v <= limit,
        decreases to - i,
    {
        let c = s[i];
        proof {
            assert(s@.subrange(from as int, i + 1).drop_last() =~= s@.subrange(from as int, i as int));
            assert(t[i - from] == c);
        }
        let d: u64 = (c as u32 - '0' as u32) as u64;
        if d > limit || v > (limit - d) / 10 {
            proof {
                assert(t.subrange(0, i + 1 - from) =~= s@.subrange(from as int, i + 1));
                lemma_digits_val_mono(t, i + 1 - from);
            }
            return None;
        }
        v = v * 10 + d;
        i = i + 1;
    }
    Some(v)
}


/// Reading a run of digits and dots from the left: the digits' value so far,
/// the number of digits after the first dot, the number of dots, and the
/// number of digits.
pub open spec fn scan_dec(t: Seq<char>) -> (nat, nat, nat, nat)
    decreases t.len(),
{
    if t.len() == 0 {
        (0, 0, 0, 0)
    } else {
        let (m, sc, dots, digs) = scan_dec(t.drop_last());
        if t.last() == '.' {
            (m, sc, dots + 1, digs)
        } else {
            (m * 10 + digit_val(t.last()), if dots > 0 { sc + 1 } else { sc }, dots, digs + 1)
        }
    }
}

/// The number that a run of digits and dots spells: at most one dot and at
/// least one digit (so "5", "5.", ".5" and "5.25" are numbers, "." and
/// "1.2.3" are not), and small enough to hold exactly.
pub open spec fn decimal_of(t: Seq<char>) -> Option<Decimal> {
    let (m, sc, dots, digs) = scan_dec(t);
    if dots <= 1 && digs >= 1 && m <= u64::MAX && sc <= u32::MAX {
        Some(Decimal { mantissa: m as u64, scale: sc as u32 })
    } else {
        None
    }
}

proof fn lemma_scan_dec_mono(t: Seq<char>, k: int)
    requires
        0 <= k <= t.len(),
    ensures
        scan_dec(t.subrange(0, k)).0 <= scan_dec(t).0,
        scan_dec(t.subrange(0, k)).1 <= scan_dec(t).1,
        scan_dec(t.subrange(0, k)).2 <= scan_dec(t).2,
    decreases t.len(),
{
    if k < t.len() {
        assert(t.drop_last().subrange(0, k) =~= t.subrange(0, k));
        lemma_scan_dec_mono(t.drop_last(), k);
    } else {
        assert(t.subrange(0, k) =~= t);
    }
}

/// Reads `s[from..to]`, a run of digits and dots, as a decimal number.
pub fn parse_decimal(s: &[char], from: usize, to: usize) -> (r: Option<Decimal>)
    requires
        from <= to <= s@.len(),
        forall|i: int| from <= i < to ==> is_num_char(#[trigger] s@[i]),
    ensures
        r == decimal_of(s@.subrange(from as int, to as int)),
{
    let ghost t = s@.subrange(from as int, to as int);
    let mut m: u64 = 0;
    let mut sc: u32 = 0;
    let mut dots: u32 = 0;
    let mut digs: usize = 0;
    let mut i: usize = from;
    while i < to
        invariant
            from <= i <= to <= s@.len(),
            t == s@.subrange(from as int, to as int),
            forall|j: int| from <= j < to ==> is_num_char(#[trigger] s@[j]),
            scan_dec(s@.subrange(from as int, i as int)) == (m as nat, sc as nat, dots as nat, digs as nat),
            dots <= 1,
            digs <= i - from,
        decreases to - i,
    {
        let c = s[i];
        proof {
            assert(s@.subrange(from as int, i + 1).drop_last() =~= s@.subrange(from as int, i as int));
            assert(t.subrange(0, i + 1 - from) =~= s@.subrange(from as int, i + 1));
        }
        if c == '.' {
            if dots == 1 {
                proof {
                    lemma_scan_dec_mono(t, i + 1 - from);
                }
                return None;
            }
            dots = dots + 1;
        } else {
            let d: u64 = (c as u32 - '0' as u32) as u64;
            if m > (u64::MAX - d) / 10 || (dots > 0 && sc == u32::MAX) {
                proof {
                    lemma_scan_dec_mono(t, i + 1 - from);
                }
                return None;
            }
            m = m * 10 + d;
            if dots > 0 {
                sc = sc + 1;
            }
            digs = digs + 1;
        }
        i = i + 1;
    }
    proof {
        assert(s@.subrange(from as int, i as int) =~= t);
    }
    if digs == 0 {
        None
    } else {
        Some(Decimal { mantissa: m, scale: sc })
    }
}

/// The value that `-?\d+` spells: an optional minus sign and digits.
pub open spec fn signed_val(t: Seq<char>) -> int {
    if t.len() > 0 && t[0] == '-' {
        -digits_val(t.subrange(1, t.len() as int))
    } else {
        digits_val(t) as int
    }
}

/// Reads `s[from..to]`, digits with an optional leading minus sign, as an
/// `i32`, or `None` where the value does not fit.
pub fn parse_i32(s: &[char], from: usize, to: usize) -> (r: Option<i32>)
    requires
        from <= to <= s@.len(),
        from < to && s@[from as int] == '-' ==> all_digits(s@.subrange(from + 1, to as int)),
        !(from < to && s@[from as int] == '-') ==> all_digits(s@.subrange(from as int, to as int)),
    ensures
        r matches Some(v) ==> v as int == signed_val(s@.subrange(from as int, to as int)),
        r is None <==> !(i32::MIN <= signed_val(s@.subrange(from as int, to as int)) <= i32::MAX),
{
    let ghost t = s@.subrange(from as int, to as int);
    if from < to && s[from] == '-' {
        proof {
            assert(t.subrange(1, t.len() as int) =~= s@.subrange(from + 1, to as int));
        }
        match parse_digits(s, from + 1, to, 2147483648) {
            Some(v) => Some((0 - v as i64) as i32),
            None => None,
        }
    } else {
        match parse_digits(s, from, to, 2147483647) {
            Some(v) => Some(v as i32),
            None => None,
        }
    }
}

/// The `i32` that `t` spells, when it fits.
pub open spec fn i32_of(t: Seq<char>) -> Option<i32> {
    if i32::MIN <= signed_val(t) <= i32::MAX {
        Some(signed_val(t) as i32)
    } else {
        None
    }
}

/// The decimal digits of `n`, most significant first, without leading zeros.
pub open spec fn dec_digits(n: nat) -> Seq<char>
    decreases n,
{
    if n < 10 {
        seq![digit_char(n)]
    } else {
        dec_digits(n / 10).push(digit_char(n % 10))
    }
}

pub open spec fn digit_char(d: nat) -> char {
    if d == 0 { '0' } else if d == 1 { '1' } else if d == 2 { '2' } else if d == 3 { '3' }
    else if d == 4 { '4' } else if d == 5 { '5' } else if d == 6 { '6' } else if d == 7 { '7' }
    else if d == 8 { '8' } else { '9' }
}

fn digit_char_of(d: u64) -> (c: char)
    requires
        d < 10,
    ensures
        c == digit_char(d as nat),
{
    if d == 0 { '0' } else if d == 1 { '1' } else if d == 2 { '2' } else if d == 3 { '3' }
    else if d == 4 { '4' } else if d == 5 { '5' } else if d == 6 { '6' } else if d == 7 { '7' }
    else if d == 8 { '8' } else { '9' }
}

/// Appends the decimal digits of `n`.
pub fn push_digits(out: &mut Vec<char>, n: u64)
    ensures
        final(out)@ == old(out)@ + dec_digits(n as nat),
    decreases n,
{
    if n >= 10 {
        push_digits(out, n / 10);
    }
    let c = digit_char_of(n % 10);
    out.push(c);
    proof {
        if n >= 10 {
            assert(final(out)@ =~= old(out)@ + dec_digits(n as nat));
        } else {
            assert(final(out)@ =~= old(out)@ + dec_digits(n as nat));
        }
    }
}

} // verus!
