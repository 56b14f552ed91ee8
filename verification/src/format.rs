//! Numbers as the interface shows them: file sizes in binary units with one
//! decimal, and durations as minutes and seconds.
use vstd::prelude::*;
use crate::paths::string_from_chars;

verus! {

/// The largest integer below 2^53, plus one: where doubles stop holding
/// every integer.
pub open spec fn two_pow_53() -> nat {
    9007199254740992
}

/// The spacing of doubles at `b`, searched from `u` upwards by doubling:
/// the least power-of-two multiple of `u` whose 2^53-fold exceeds `b`.
pub open spec fn spacing(b: nat, u: nat) -> nat
    decreases (if b >= u { b - u } else { 0 }),
{
    if u == 0 {
        0
    } else if b < two_pow_53() * u {
        u
    } else {
        spacing(b, 2 * u)
    }
}

/// `b` converted to a double (`as f64`): rounded to a multiple of the
/// spacing of doubles at `b`, ties to the even multiple.
pub open spec fn as_double(b: nat) -> nat {
    let u = spacing(b, 1);
    let base = b / u;
    let low = b % u;
    if 2 * low > u || (2 * low == u && base % 2 == 1) {
        (base + 1) * u
    } else {
        base * u
    }
}

/// How many times a size of `m` is divided by 1024, starting at step `k`
/// with divisor `d`: while it is at least 1024 and a larger unit is left.
/// Gives the step count and the divisor 1024^steps.
pub open spec fn scale(m: nat, k: nat, d: nat) -> (nat, nat)
    decreases 4 - k,
{
    if k < 4 && m >= 1024 * d {
        scale(m, k + 1, 1024 * d)
    } else {
        (k, d)
    }
}

/// `m / d` in tenths, rounded to the nearest tenth, ties to even: what
/// `{:.1}` prints for the exact value `m / d`.
pub open spec fn tenths(m: nat, d: nat) -> nat {
    let t = 10 * m;
    let n = t / d;
    let r = t % d;
    if 2 * r > d || (2 * r == d && n % 2 == 1) {
        n + 1
    } else {
        n
    }
}

/// The decimal digit `d`.
pub open spec fn digit(d: nat) -> char {
    if d == 0 {
        '0'
    } else if d == 1 {
        '1'
    } else if d == 2 {
        '2'
    } else if d == 3 {
        '3'
    } else if d == 4 {
        '4'
    } else if d == 5 {
        '5'
    } else if d == 6 {
        '6'
    } else if d == 7 {
        '7'
    } else if d == 8 {
        '8'
    } else {
        '9'
    }
}

/// `n` in decimal, without leading zeros.
pub open spec fn decimal(n: nat) -> Seq<char>
    decreases n,
{
    if n < 10 {
        seq![digit(n)]
    } else {
        decimal(n / 10).push(digit(n % 10))
    }
}

/// The name of the `k`-th binary unit.
pub open spec fn unit_name(k: nat) -> Seq<char> {
    if k == 0 {
        seq!['B']
    } else if k == 1 {
        seq!['K', 'B']
    } else if k == 2 {
        seq!['M', 'B']
    } else if k == 3 {
        seq!['G', 'B']
    } else {
        seq!['T', 'B']
    }
}

/// A size of `bytes` as shown: the byte count as a double, divided by 1024
/// while it is at least 1024 (up to terabytes), printed with one decimal
/// (rounded half to even), a space and the unit.
pub open spec fn file_size_text(bytes: u64) -> Seq<char> {
    let m = as_double(bytes as nat);
    let (k, d) = scale(m, 0, 1);
    let n = tenths(m, d);
    decimal(n / 10) + seq!['.', digit(n % 10), ' '] + unit_name(k)
}

/// `n` with at least two digits: a leading zero below ten.
pub open spec fn two_digits(n: nat) -> Seq<char> {
    if n < 10 {
        seq!['0', digit(n)]
    } else {
        decimal(n)
    }
}

/// A duration of `total` seconds as minutes and seconds, each with at
/// least two digits: "mm:ss".
pub open spec fn clock_text(total: u64) -> Seq<char> {
    two_digits(total as nat / 60) + seq![':'] + two_digits(total as nat % 60)
}

/// Sizes under 1024 bytes are shown as the byte count with a zero decimal:
/// "N.0 B".
pub proof fn lemma_small_sizes_in_bytes(bytes: u64)
    requires
        bytes < 1024,
    ensures
        file_size_text(bytes) == decimal(bytes as nat) + seq!['.', '0', ' ', 'B'],
{
    let b = bytes as nat;
    assert(spacing(b, 1) == 1);
    assert(as_double(b) == b);
    assert(scale(b, 0, 1) == (0nat, 1nat));
    assert(tenths(b, 1) == 10 * b);
    assert((10 * b) / 10 == b);
    assert((10 * b) % 10 == 0);
}

fn digit_char(d: u128) -> (c: char)
    requires
        d < 10,
    ensures
        c == digit(d as nat),
{
    if d == 0 {
        '0'
    } else if d == 1 {
        '1'
    } else if d == 2 {
        '2'
    } else if d == 3 {
        '3'
    } else if d == 4 {
        '4'
    } else if d == 5 {
        '5'
    } else if d == 6 {
        '6'
    } else if d == 7 {
        '7'
    } else if d == 8 {
        '8'
    } else {
        '9'
    }
}

fn push_decimal(n: u128, out: &mut Vec<char>)
    ensures
        final(out)@ == old(out)@ + decimal(n as nat),
    decreases n,
{
    if n >= 10 {
        push_decimal(n / 10, out);
    }
    let d = digit_char(n % 10);
    out.push(d);
    proof {
        if n < 10 {
            assert(n % 10 == n);
        }
    }
}

fn push_two_digits(n: u128, out: &mut Vec<char>)
    ensures
        final(out)@ == old(out)@ + two_digits(n as nat),
{
    if n < 10 {
        out.push('0');
    }
    push_decimal(n, out);
}

struct UnitScale {
    steps: u128,
    divisor: u128,
}

fn double_value(b: u128) -> (m: u128)
    requires
        b < 0x1_0000_0000_0000_0000,
    ensures
        m == as_double(b as nat),
        m <= 0x1_0000_0000_0000_1000,
{
    let mut u: u128 = 1;
    while b >= 9007199254740992 * u
        invariant
            1 <= u <= 4096,
            b < 0x1_0000_0000_0000_0000,
            spacing(b as nat, u as nat) == spacing(b as nat, 1),
        decreases b - u,
    {
        u = 2 * u;
    }
    let base = b / u;
    let low = b % u;
    proof {
        assert(base * u <= b && (base + 1) * u == base * u + u) by (nonlinear_arith)
            requires
                base == b / u,
                u >= 1,
        ;
    }
    if 2 * low > u || (2 * low == u && base % 2 == 1) {
        (base + 1) * u
    } else {
        base * u
    }
}

fn unit_scale(m: u128) -> (s: UnitScale)
    requires
        m <= 0x1_0000_0000_0000_1000,
    ensures
        (s.steps as nat, s.divisor as nat) == scale(m as nat, 0, 1),
        s.steps <= 4,
        1 <= s.divisor <= 0x100_0000_0000,
{
    let mut k: u128 = 0;
    let mut d: u128 = 1;
    while k < 4 && m >= 1024 * d
        invariant
            k <= 4,
            (k == 0 && d == 1) || (k == 1 && d == 1024) || (k == 2 && d == 0x10_0000) || (k == 3
                && d == 0x4000_0000) || (k == 4 && d == 0x100_0000_0000),
            scale(m as nat, k as nat, d as nat) == scale(m as nat, 0, 1),
        decreases 4 - k,
    {
        d = 1024 * d;
        k = k + 1;
    }
    UnitScale { steps: k, divisor: d }
}

/// Helpers that format values for the interface.
pub struct UiHelpers;

impl UiHelpers {
    /// A file size in binary units with one decimal, e.g. "1.5 KB" (see
    /// `file_size_text`).
    pub fn format_file_size(bytes: u64) -> (s: String)
        ensures
            s@ == file_size_text(bytes),
    {
        let m = double_value(bytes as u128);
        let sc = unit_scale(m);
        let d = sc.divisor;
        let t = 10 * m;
        let q = t / d;
        let r = t % d;
        let n = if 2 * r > d || (2 * r == d && q % 2 == 1) {
            q + 1
        } else {
            q
        };
        assert(n as nat == tenths(m as nat, d as nat));
        let mut out: Vec<char> = Vec::new();
        push_decimal(n / 10, &mut out);
        out.push('.');
        out.push(digit_char(n % 10));
        out.push(' ');
        let k = sc.steps;
        if k == 0 {
            out.push('B');
        } else {
            if k == 1 {
                out.push('K');
            } else if k == 2 {
                out.push('M');
            } else if k == 3 {
                out.push('G');
            } else {
                out.push('T');
            }
            out.push('B');
        }
        assert(out@ =~= file_size_text(bytes));
        string_from_chars(&out)
    }

    /// A duration of `total_seconds` as "mm:ss", minutes and seconds each
    /// with at least two digits (see `clock_text`).
    pub fn format_duration_seconds(total_seconds: u64) -> (s: String)
        ensures
            s@ == clock_text(total_seconds),
    {
        let mut out: Vec<char> = Vec::new();
        push_two_digits((total_seconds / 60) as u128, &mut out);
        out.push(':');
        push_two_digits((total_seconds % 60) as u128, &mut out);
        assert(out@ =~= clock_text(total_seconds));
        string_from_chars(&out)
    }
}

} // verus!
