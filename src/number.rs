//! Engine numbers and the integer-conversion policy.
//!
//! An engine number is a double, held here as its IEEE-754 bit pattern.
use vstd::arithmetic::div_mod::*;
use vstd::arithmetic::mul::*;
use vstd::arithmetic::power2::*;
use vstd::bits::*;
use vstd::prelude::*;

verus! {

/// The largest integer n such that every integer of magnitude at most n is a double: 2^53 - 1.
pub const MAX_SAFE_INTEGER: i64 = 9007199254740991;

/// The bit pattern of the double -0.0.
pub const NEGATIVE_ZERO: u64 = 0x8000_0000_0000_0000;

/// Which whole-valued engine numbers become host integers.
#[derive(Clone, Copy, Debug, PartialEq, Eq, Structural)]
pub enum IntegerConversion {
    /// Every number becomes a host double.
    Never,
    /// Only numbers that are 32-bit integers become host integers.
    I32,
    /// Whole numbers within the safe-integer range become host integers.
    Safe,
    /// Every whole number becomes a host integer, saturated to the `i64` range.
    Aggressive,
}

/// A host number: an integer or a double (as its bits).
#[derive(Clone, Copy, Debug, PartialEq, Eq, Structural)]
pub enum HostNumber {
    Integer(i64),
    Double(u64),
}

/// The sign bit of a double.
pub open spec fn sign_bit(bits: u64) -> nat {
    bits as nat / 0x8000_0000_0000_0000
}

/// The biased exponent field of a double.
pub open spec fn exponent_field(bits: u64) -> nat {
    (bits as nat / 0x10_0000_0000_0000) % 0x800
}

/// The fraction field of a double.
pub open spec fn fraction_field(bits: u64) -> nat {
    bits as nat % 0x10_0000_0000_0000
}

/// The magnitude of a double, when it is finite and whole-valued.
///
/// A normal double is `(2^52 + fraction) * 2^(exponent - 1075)`; a subnormal one
/// lies strictly between -1 and 1, so only its zero is whole.
pub open spec fn whole_magnitude(bits: u64) -> Option<nat> {
    let e = exponent_field(bits);
    let f = fraction_field(bits);
    let m = f + 0x10_0000_0000_0000;
    if e == 0x7ff {
        None
    } else if e == 0 {
        if f == 0 {
            Some(0)
        } else {
            None
        }
    } else if e >= 1075 {
        Some(m * pow2((e - 1075) as nat))
    } else if m % pow2((1075 - e) as nat) == 0 {
        Some(m / pow2((1075 - e) as nat))
    } else {
        None
    }
}

/// The integer that a double equals, when it is finite and whole-valued.
pub open spec fn whole_value(bits: u64) -> Option<int> {
    match whole_magnitude(bits) {
        Some(n) => Some(
            if sign_bit(bits) == 1 {
                -n
            } else {
                n as int
            },
        ),
        None => None,
    }
}

/// Whether the engine classifies a number as a 32-bit integer (negative zero is not one).
pub open spec fn is_int32(bits: u64) -> bool {
    bits != NEGATIVE_ZERO && match whole_value(bits) {
        Some(n) => i32::MIN <= n <= i32::MAX,
        None => false,
    }
}

/// Whether an integer lies in the safe-integer range `[-(2^53-1), 2^53-1]`.
pub open spec fn is_safe_integer(n: int) -> bool {
    -MAX_SAFE_INTEGER <= n <= MAX_SAFE_INTEGER
}

/// An integer clamped to the `i64` range.
pub open spec fn saturate(n: int) -> i64 {
    if n > i64::MAX {
        i64::MAX
    } else if n < i64::MIN {
        i64::MIN
    } else {
        n as i64
    }
}

/// The host number that an engine number becomes under a policy.
pub open spec fn host_number(bits: u64, policy: IntegerConversion) -> HostNumber {
    match policy {
        IntegerConversion::Never => HostNumber::Double(bits),
        IntegerConversion::I32 => if is_int32(bits) {
            HostNumber::Integer(whole_value(bits)->0 as i64)
        } else {
            HostNumber::Double(bits)
        },
        IntegerConversion::Safe => match whole_value(bits) {
            Some(n) => if is_safe_integer(n) {
                HostNumber::Integer(n as i64)
            } else {
                HostNumber::Double(bits)
            },
            None => HostNumber::Double(bits),
        },
        IntegerConversion::Aggressive => match whole_value(bits) {
            Some(n) => HostNumber::Integer(saturate(n)),
            None => HostNumber::Double(bits),
        },
    }
}

/// What the bits of a double say of its whole value.
enum Whole {
    /// Not finite, or not whole-valued.
    Fractional,
    /// A whole value within the `i64` range.
    Exact(i64),
    /// A whole value of magnitude at least 2^63.
    Beyond { negative: bool },
}

/// Reads the whole value of a double from its bits.
fn whole_of(bits: u64) -> (r: Whole)
    ensures
        r is Fractional <==> whole_value(bits) is None,
        r matches Whole::Exact(n) ==> whole_value(bits) == Some(n as int),
        r matches Whole::Beyond { negative } ==> whole_value(bits) matches Some(n) && (if negative {
            n <= i64::MIN
        } else {
            n > i64::MAX
        }),
{
    let e = (bits >> 52u64) & 0x7ff;
    let f = bits & 0xf_ffff_ffff_ffff;
    let negative = (bits >> 63u64) == 1;
    assert(e == (bits / 0x10_0000_0000_0000) % 0x800) by (bit_vector)
        requires
            e == (bits >> 52u64) & 0x7ff,
    ;
    assert(f == bits % 0x10_0000_0000_0000) by (bit_vector)
        requires
            f == bits & 0xf_ffff_ffff_ffff,
    ;
    assert(negative == (bits / 0x8000_0000_0000_0000 == 1)) by (bit_vector)
        requires
            negative == ((bits >> 63u64) == 1),
    ;
    assert(bits / 0x8000_0000_0000_0000 <= 1) by (bit_vector);
    if e == 0x7ff {
        return Whole::Fractional;
    }
    if e == 0 {
        if f == 0 {
            return Whole::Exact(0);
        }
        return Whole::Fractional;
    }
    let m: u64 = f + 0x10_0000_0000_0000;
    if e < 1023 {
        proof {
            let k = (1075 - e) as nat;
            lemma2_to64_rest();
            if k > 53 {
                lemma_pow2_strictly_increases(53, k);
            }
            lemma_small_mod(m as nat, pow2(k));
        }
        return Whole::Fractional;
    }
    if e < 1075 {
        let k: u64 = 1075 - e;
        proof {
            lemma_u64_pow2_no_overflow(k as nat);
            lemma_u64_shl_is_mul(1, k);
        }
        let d: u64 = 1u64 << k;
        if m % d != 0 {
            return Whole::Fractional;
        }
        let mag: u64 = m / d;
        assert(mag <= m) by {
            lemma_div_is_ordered_by_denominator(m as int, 1, d as int);
        }
        if negative {
            return Whole::Exact(-(mag as i64));
        }
        return Whole::Exact(mag as i64);
    }
    let s: u64 = e - 1075;
    if s <= 10 {
        proof {
            lemma_u64_pow2_no_overflow(s as nat);
            lemma_u64_shl_is_mul(1, s);
            lemma2_to64();
            if s < 10 {
                lemma_pow2_strictly_increases(s as nat, 10);
            }
            lemma_mul_inequality(m as int, 0x20_0000_0000_0000, pow2(s as nat) as int);
            lemma_mul_inequality(pow2(s as nat) as int, 1024, 0x20_0000_0000_0000);
        }
        let d: u64 = 1u64 << s;
        assert(m * d < 0x8000_0000_0000_0000) by (nonlinear_arith)
            requires
                m < 0x20_0000_0000_0000,
                d <= 1024,
        ;
        let mag: u64 = m * d;
        if negative {
            return Whole::Exact(-(mag as i64));
        }
        return Whole::Exact(mag as i64);
    }
    proof {
        lemma2_to64();
        if s > 11 {
            lemma_pow2_strictly_increases(11, s as nat);
        }
        lemma_mul_inequality(0x10_0000_0000_0000, m as int, pow2(s as nat) as int);
        lemma_mul_inequality(2048, pow2(s as nat) as int, 0x10_0000_0000_0000);
        lemma_mul_is_commutative(m as int, pow2(s as nat) as int);
    }
    Whole::Beyond { negative }
}

/// Turns an engine number into a host number under a policy.
pub fn number_to_host(bits: u64, policy: IntegerConversion) -> (r: HostNumber)
    ensures
        r == host_number(bits, policy),
{
    match policy {
        IntegerConversion::Never => HostNumber::Double(bits),
        IntegerConversion::I32 => match whole_of(bits) {
            Whole::Exact(n) => if bits != NEGATIVE_ZERO && i32::MIN as i64 <= n && n
                <= i32::MAX as i64 {
                HostNumber::Integer(n)
            } else {
                HostNumber::Double(bits)
            },
            _ => HostNumber::Double(bits),
        },
        IntegerConversion::Safe => match whole_of(bits) {
            Whole::Exact(n) => if -MAX_SAFE_INTEGER <= n && n <= MAX_SAFE_INTEGER {
                HostNumber::Integer(n)
            } else {
                HostNumber::Double(bits)
            },
            _ => HostNumber::Double(bits),
        },
        IntegerConversion::Aggressive => match whole_of(bits) {
            Whole::Exact(n) => HostNumber::Integer(n),
            Whole::Beyond { negative } => if negative {
                HostNumber::Integer(i64::MIN)
            } else {
                HostNumber::Integer(i64::MAX)
            },
            Whole::Fractional => HostNumber::Double(bits),
        },
    }
}

/// The number of binary digits of a natural number (none for zero).
pub open spec fn bit_length(n: nat) -> nat
    decreases n,
{
    if n == 0 {
        0
    } else {
        1 + bit_length(n / 2)
    }
}

/// The magnitude of an integer.
pub open spec fn magnitude(n: int) -> nat {
    if n < 0 {
        (-n) as nat
    } else {
        n as nat
    }
}

/// Whether an integer is exactly a double: its binary digits below the leading 53 are all zero.
pub open spec fn is_double_exact(n: int) -> bool {
    let a = magnitude(n);
    bit_length(a) <= 53 || a % pow2((bit_length(a) - 53) as nat) == 0
}

/// A positive number lies between the powers of two that its bit length gives.
proof fn lemma_bit_length_bounds(n: nat)
    requires
        n > 0,
    ensures
        bit_length(n) >= 1,
        pow2((bit_length(n) - 1) as nat) <= n < pow2(bit_length(n)),
    decreases n,
{
    if n == 1 {
        assert(bit_length(0) == 0);
        lemma2_to64();
    } else {
        let h = n / 2;
        lemma_bit_length_bounds(h);
        let l = bit_length(h);
        assert(bit_length(n) == l + 1);
        lemma_pow2_unfold(l + 1);
        lemma_pow2_unfold(l);
    }
}

/// An integer within the 32-bit range is exactly a double.
pub proof fn lemma_int32_is_double_exact(n: int)
    requires
        i32::MIN <= n <= i32::MAX,
    ensures
        is_double_exact(n),
{
    let a = magnitude(n);
    if a > 0 {
        lemma_bit_length_bounds(a);
        lemma2_to64();
        if bit_length(a) > 53 {
            lemma_pow2_strictly_increases(32, (bit_length(a) - 1) as nat);
        }
    }
}

/// Turns a host integer into the double equal to it, if there is one.
pub fn integer_to_double(n: i64) -> (r: Option<u64>)
    ensures
        r is Some <==> is_double_exact(n as int),
        r matches Some(b) ==> whole_value(b) == Some(n as int) && b != NEGATIVE_ZERO,
{
    let negative = n < 0;
    let a: u64 = if n == i64::MIN {
        0x8000_0000_0000_0000
    } else if negative {
        (-n) as u64
    } else {
        n as u64
    };
    assert(a as nat == magnitude(n as int));
    if a == 0 {
        assert(0u64 / 0x10_0000_0000_0000 == 0 && 0u64 % 0x10_0000_0000_0000 == 0) by (bit_vector);
        return Some(0);
    }
    proof {
        lemma_bit_length_bounds(a as nat);
        lemma2_to64();
        lemma2_to64_rest();
        if bit_length(a as nat) > 64 {
            lemma_pow2_strictly_increases(64, (bit_length(a as nat) - 1) as nat);
        }
    }
    let mut len: u64 = 0;
    let mut x: u64 = a;
    while x > 0
        invariant
            bit_length(a as nat) == len + bit_length(x as nat),
            bit_length(a as nat) <= 64,
        decreases x,
    {
        x = x / 2;
        len = len + 1;
    }
    let ghost l = len as nat;
    let exponent: u64 = 1022 + len;
    let significand: u64;
    if len <= 53 {
        let shift: u64 = 53 - len;
        proof {
            lemma_u64_pow2_no_overflow(shift as nat);
            lemma_pow2_adds((l - 1) as nat, shift as nat);
            lemma_pow2_adds(l, shift as nat);
            lemma_mul_inequality(pow2((l - 1) as nat) as int, a as int, pow2(shift as nat) as int);
            lemma_mul_strict_inequality(a as int, pow2(l) as int, pow2(shift as nat) as int);
            lemma_u64_shl_is_mul(a, shift);
        }
        significand = a << shift;
        proof {
            let k = shift as nat;
            lemma_pow2_pos(k);
            assert(significand == a * pow2(k));
            if len == 53 {
                assert(exponent == 1075 && k == 0);
                lemma2_to64();
                assert(significand * pow2(0) == a) by (nonlinear_arith)
                    requires
                        significand == a * pow2(k),
                        k == 0,
                        pow2(0) == 1,
                ;
            } else {
                assert(exponent < 1075 && (1075 - exponent) as nat == k);
                lemma_mod_multiples_basic(a as int, pow2(k) as int);
                lemma_mul_is_commutative(a as int, pow2(k) as int);
                lemma_div_multiples_vanish(a as int, pow2(k) as int);
            }
        }
        assert(if exponent >= 1075 {
            significand * pow2((exponent - 1075) as nat) == a
        } else {
            significand as nat % pow2((1075 - exponent) as nat) == 0 && significand as nat / pow2(
                (1075 - exponent) as nat,
            ) == a
        });
    } else {
        let shift: u64 = len - 53;
        proof {
            lemma_u64_pow2_no_overflow(shift as nat);
            lemma_u64_shl_is_mul(1, shift);
        }
        let d: u64 = 1u64 << shift;
        if a % d != 0 {
            return None;
        }
        significand = a / d;
        proof {
            let k = shift as nat;
            lemma_pow2_pos(k);
            lemma_pow2_adds(52, k);
            lemma_pow2_adds(53, k);
            assert((l - 1) as nat == 52 + k);
            lemma_fundamental_div_mod(a as int, d as int);
            let q = significand as int;
            assert(q * d >= pow2(52) * d ==> q >= pow2(52)) by (nonlinear_arith)
                requires
                    d > 0,
            ;
            assert(q * d < pow2(53) * d ==> q < pow2(53)) by (nonlinear_arith)
                requires
                    d > 0,
            ;
            lemma_mul_is_commutative(q, d as int);
            assert(exponent >= 1075 && (exponent - 1075) as nat == k);
        }
        assert(significand * pow2((exponent - 1075) as nat) == a);
    }
    assert(0x10_0000_0000_0000 <= significand < 0x20_0000_0000_0000);
    let fraction: u64 = significand - 0x10_0000_0000_0000;
    let sign: u64 = if negative {
        0x8000_0000_0000_0000
    } else {
        0
    };
    let bits: u64 = sign + exponent * 0x10_0000_0000_0000 + fraction;
    assert(exponent_field(bits) == exponent && fraction_field(bits) == fraction && sign_bit(bits)
        == sign / 0x8000_0000_0000_0000) by (bit_vector)
        requires
            bits == sign + exponent * 0x10_0000_0000_0000 + fraction,
            exponent < 0x800,
            fraction < 0x10_0000_0000_0000,
            sign == 0 || sign == 0x8000_0000_0000_0000,
    ;
    assert(whole_magnitude(bits) == Some(a as nat));
    Some(bits)
}

/// Under the `Safe` policy, a whole-valued double within `[-(2^53-1), 2^53-1]` becomes the
/// host integer equal to it, and every other double stays a double.
pub proof fn lemma_safe_policy_promotes_safe_integers(bits: u64)
    ensures
        match whole_value(bits) {
            Some(n) => if is_safe_integer(n) {
                host_number(bits, IntegerConversion::Safe) == HostNumber::Integer(n as i64)
                    && n as i64 == n
            } else {
                host_number(bits, IntegerConversion::Safe) == HostNumber::Double(bits)
            },
            None => host_number(bits, IntegerConversion::Safe) == HostNumber::Double(bits),
        },
{
}

/// Under the `I32` policy, a double outside the 32-bit range never becomes a host integer,
/// whole-valued and safe or not.
pub proof fn lemma_i32_policy_keeps_wide_numbers(bits: u64)
    requires
        !(whole_value(bits) matches Some(n) && i32::MIN <= n <= i32::MAX),
    ensures
        host_number(bits, IntegerConversion::I32) == HostNumber::Double(bits),
{
}

/// The policy that a name stands for: "never", "i32", "safe" or "aggressive".
pub open spec fn policy_named(name: Seq<char>) -> Option<IntegerConversion> {
    if name == "never"@ {
        Some(IntegerConversion::Never)
    } else if name == "i32"@ {
        Some(IntegerConversion::I32)
    } else if name == "safe"@ {
        Some(IntegerConversion::Safe)
    } else if name == "aggressive"@ {
        Some(IntegerConversion::Aggressive)
    } else {
        None
    }
}

/// Whether two strings hold the same characters.
fn same_text(a: &str, b: &str) -> (r: bool)
    ensures
        r == (a@ == b@),
{
    let n = a.unicode_len();
    if n != b.unicode_len() {
        return false;
    }
    let mut i: usize = 0;
    while i < n
        invariant
            n == a@.len(),
            n == b@.len(),
            i <= n,
            forall|j: int| 0 <= j < i ==> a@[j] == b@[j],
        decreases n - i,
    {
        if a.get_char(i) != b.get_char(i) {
            return false;
        }
        i = i + 1;
    }
    assert(a@ =~= b@);
    true
}

impl IntegerConversion {
    /// The policy with this name; none for a name that is none of the four.
    pub fn from_name(name: &str) -> (r: Option<IntegerConversion>)
        ensures
            r == policy_named(name@),
    {
        if same_text(name, "never") {
            Some(IntegerConversion::Never)
        } else if same_text(name, "i32") {
            Some(IntegerConversion::I32)
        } else if same_text(name, "safe") {
            Some(IntegerConversion::Safe)
        } else if same_text(name, "aggressive") {
            Some(IntegerConversion::Aggressive)
        } else {
            None
        }
    }
}

} // verus!
