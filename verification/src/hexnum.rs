//! Hexadecimal component identifiers on the console: parsing operator-typed
//! ids and formatting ids for report lines. Identifiers travel as `0x`
//! followed by hex digits; report lines always show eight lowercase digits.

use vstd::prelude::*;

verus! {

/// ASCII '0'.
pub const BYTE_ZERO: u8 = 0x30;

/// ASCII '9'.
pub const BYTE_NINE: u8 = 0x39;

/// ASCII 'a'.
pub const BYTE_LOWER_A: u8 = 0x61;

/// ASCII 'f'.
pub const BYTE_LOWER_F: u8 = 0x66;

/// ASCII 'A'.
pub const BYTE_UPPER_A: u8 = 0x41;

/// ASCII 'F'.
pub const BYTE_UPPER_F: u8 = 0x46;

/// ASCII 'x'.
pub const BYTE_LOWER_X: u8 = 0x78;

/// Whether a byte is an ASCII hex digit, either case.
pub open spec fn is_hex_digit(b: u8) -> bool {
    (BYTE_ZERO <= b <= BYTE_NINE) || (BYTE_LOWER_A <= b <= BYTE_LOWER_F) || (BYTE_UPPER_A <= b
        <= BYTE_UPPER_F)
}

/// The numeric value of one hex digit.
pub open spec fn hex_digit_val(b: u8) -> int {
    if BYTE_ZERO <= b <= BYTE_NINE {
        b - BYTE_ZERO
    } else if BYTE_LOWER_A <= b <= BYTE_LOWER_F {
        b - BYTE_LOWER_A + 10
    } else {
        b - BYTE_UPPER_A + 10
    }
}

/// Every byte of `s` is a hex digit.
pub open spec fn all_hex_digits(s: Seq<u8>) -> bool {
    forall|i: int| 0 <= i < s.len() ==> is_hex_digit(s[i])
}

/// The numeric value of a hex digit string, most significant digit first.
pub open spec fn hex_val(s: Seq<u8>) -> int
    decreases s.len(),
{
    if s.len() == 0 {
        0
    } else {
        hex_val(s.drop_last()) * 16 + hex_digit_val(s.last())
    }
}

/// Sixteen to the `n`th power.
pub open spec fn pow16(n: nat) -> int
    decreases n,
{
    if n == 0 {
        1
    } else {
        16 * pow16((n - 1) as nat)
    }
}

/// Powers of sixteen are positive.
proof fn lemma_pow16_pos(n: nat)
    ensures
        pow16(n) >= 1,
    decreases n,
{
    if n > 0 {
        lemma_pow16_pos((n - 1) as nat);
    }
}

/// Powers of sixteen grow monotonically.
proof fn lemma_pow16_mono(a: nat, b: nat)
    requires
        a <= b,
    ensures
        pow16(a) <= pow16(b),
    decreases b,
{
    if a < b {
        lemma_pow16_mono(a, (b - 1) as nat);
        lemma_pow16_pos((b - 1) as nat);
    }
}

/// The powers of sixteen at the identifier width.
proof fn lemma_pow16_width()
    ensures
        pow16(7) == 0x1000_0000,
        pow16(8) == 0x1_0000_0000,
{
    reveal_with_fuel(pow16, 9);
}

/// A string of `n` hex digits names a value below sixteen to the `n`th.
proof fn lemma_hex_val_bound(s: Seq<u8>)
    requires
        all_hex_digits(s),
    ensures
        0 <= hex_val(s) < pow16(s.len()),
    decreases s.len(),
{
    if s.len() > 0 {
        assert(all_hex_digits(s.drop_last()));
        lemma_hex_val_bound(s.drop_last());
        assert(0 <= hex_digit_val(s.last()) < 16);
    }
}

/// What parsing a hex digit string yields: its value, when it is one to
/// eight hex digits (so the value fits 32 bits); nothing otherwise.
pub open spec fn spec_parse_hex(s: Seq<u8>) -> Option<u32> {
    if 1 <= s.len() <= 8 && all_hex_digits(s) {
        Some(hex_val(s) as u32)
    } else {
        None
    }
}

/// The value of one ASCII hex digit, either case.
fn hex_digit_value(b: u8) -> (r: Option<u8>)
    ensures
        match r {
            Some(d) => is_hex_digit(b) && d == hex_digit_val(b) && d < 16,
            None => !is_hex_digit(b),
        },
{
    if BYTE_ZERO <= b && b <= BYTE_NINE {
        Some(b - BYTE_ZERO)
    } else if BYTE_LOWER_A <= b && b <= BYTE_LOWER_F {
        Some(b - BYTE_LOWER_A + 10)
    } else if BYTE_UPPER_A <= b && b <= BYTE_UPPER_F {
        Some(b - BYTE_UPPER_A + 10)
    } else {
        None
    }
}

/// Parses a string of hex digits (no `0x` prefix) as a 32-bit identifier.
pub fn parse_hex_u32(s: &[u8]) -> (r: Option<u32>)
    ensures
        r == spec_parse_hex(s@),
{
    if s.len() < 1 || s.len() > 8 {
        return None;
    }
    let mut val: u32 = 0;
    let mut i: usize = 0;
    proof {
        assert(s@.take(0) =~= Seq::<u8>::empty());
    }
    while i < s.len()
        invariant
            i <= s@.len(),
            1 <= s@.len() <= 8,
            all_hex_digits(s@.take(i as int)),
            val == hex_val(s@.take(i as int)),
        decreases s@.len() - i,
    {
        let d: u8 = match hex_digit_value(s[i]) {
            Some(d) => d,
            None => {
                return None;
            },
        };
        proof {
            lemma_hex_val_bound(s@.take(i as int));
            lemma_pow16_mono(i as nat, 7);
            lemma_pow16_width();
            assert(s@.take(i as int + 1).drop_last() =~= s@.take(i as int));
            assert(s@.take(i as int + 1).last() == s@[i as int]);
        }
        val = val * 16 + (d as u32);
        i = i + 1;
    }
    proof {
        assert(s@.take(s@.len() as int) =~= s@);
    }
    Some(val)
}

/// The ASCII byte of one hex digit value, lowercase.
pub open spec fn spec_hex_char(d: int) -> u8 {
    if d < 10 {
        (BYTE_ZERO + d) as u8
    } else {
        (BYTE_LOWER_A + (d - 10)) as u8
    }
}

/// Digit `i` (most significant first) of the eight-digit rendering of `v`.
pub open spec fn spec_hex_nibble(v: u32, i: int) -> int {
    (v as int / pow16((7 - i) as nat)) % 16
}

/// The eight lowercase hex digits of `v`, most significant first.
pub open spec fn spec_hex_digits(v: u32) -> Seq<u8> {
    Seq::new(8, |i: int| spec_hex_char(spec_hex_nibble(v, i)))
}

/// `0x` followed by the eight lowercase hex digits of `v`: how report lines
/// show an identifier.
pub open spec fn spec_hex_id(v: u32) -> Seq<u8> {
    seq![BYTE_ZERO, BYTE_LOWER_X] + spec_hex_digits(v)
}

/// Renders an identifier as `0x` and eight lowercase hex digits.
pub fn hex_id(v: u32) -> (out: Vec<u8>)
    ensures
        out@ == spec_hex_id(v),
{
    let mut out: Vec<u8> = Vec::new();
    out.push(BYTE_ZERO);
    out.push(BYTE_LOWER_X);
    let mut div: u32 = 0x1000_0000;
    let mut i: usize = 0;
    proof {
        lemma_pow16_width();
    }
    while i < 8
        invariant
            i <= 8,
            out@.len() == 2 + i,
            out@[0] == BYTE_ZERO,
            out@[1] == BYTE_LOWER_X,
            i < 8 ==> div == pow16((7 - i) as nat),
            forall|t: int| 2 <= t < 2 + i ==> out@[t] == spec_hex_digits(v)[t - 2],
        decreases 8 - i,
    {
        proof {
            lemma_pow16_pos((7 - i) as nat);
        }
        let d: u32 = (v / div) % 16;
        let digit: u8 = if d < 10 {
            BYTE_ZERO + (d as u8)
        } else {
            BYTE_LOWER_A + ((d - 10) as u8)
        };
        out.push(digit);
        proof {
            assert(digit == spec_hex_char(spec_hex_nibble(v, i as int)));
        }
        i = i + 1;
        if i < 8 {
            div = div / 16;
            proof {
                assert(pow16((8 - i) as nat) == 16 * pow16((7 - i) as nat));
                vstd::arithmetic::div_mod::lemma_fundamental_div_mod_converse(
                    pow16((8 - i) as nat),
                    16,
                    pow16((7 - i) as nat),
                    0,
                );
            }
        }
    }
    proof {
        assert(out@ =~= spec_hex_id(v));
    }
    out
}

} // verus!
