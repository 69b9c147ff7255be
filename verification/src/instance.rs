//! Per-instance render data: one record per point, a position plus a
//! color, and the byte-layout constants the render stage's vertex-input
//! description must match exactly.

use crate::lorenz::{gen_range_i64, LorenzState};
use crate::vec3::FxVec3;
use vstd::prelude::*;

verus! {

/// Byte stride of one instance record on the GPU: three position floats,
/// one pad float, three color floats, one pad float.
pub const INSTANCE_STRIDE: u64 = 32;

/// Byte offset of the position attribute inside an instance record.
pub const INSTANCE_POSITION_OFFSET: u64 = 0;

/// Byte offset of the color attribute inside an instance record.
pub const INSTANCE_COLOR_OFFSET: u64 = 16;

/// A color channel triple, each channel in 0..=255.
#[derive(Clone, Copy, PartialEq, Eq, Structural, Debug)]
pub struct Rgb {
    pub r: u8,
    pub g: u8,
    pub b: u8,
}

/// The color every instance takes after the first simulation update.
pub open spec fn default_color() -> Rgb {
    Rgb { r: 0, g: 255, b: 0 }
}

#[derive(Clone, Copy, PartialEq, Eq, Structural, Debug)]
pub struct Instance {
    pub position: FxVec3,
    pub color: Rgb,
}

/// The dense per-instance array mirroring the point buffer slot for
/// slot.
pub struct InstancesVec {
    pub data: Vec<Instance>,
}

/// Hexadecimal digit, by code point: 0-9, a-f, A-F.
pub open spec fn is_hex_digit(c: char) -> bool {
    (48 <= c as int <= 57) || (97 <= c as int <= 102) || (65 <= c as int <= 70)
}

pub open spec fn hex_val(c: char) -> int {
    if 48 <= c as int <= 57 {
        c as int - 48
    } else if 97 <= c as int <= 102 {
        c as int - 97 + 10
    } else {
        c as int - 65 + 10
    }
}

/// The first six characters are hex digits.
pub open spec fn valid_hex6(s: Seq<char>) -> bool {
    &&& s.len() >= 6
    &&& forall|i: int| 0 <= i < 6 ==> is_hex_digit(#[trigger] s[i])
}

/// Channel `i` (0 = red, 1 = green, 2 = blue) of a six-digit hex color.
pub open spec fn hex_channel(s: Seq<char>, i: int) -> int {
    16 * hex_val(s[2 * i]) + hex_val(s[2 * i + 1])
}

#[derive(Clone, Copy, PartialEq, Eq, Structural, Debug)]
pub enum ColorParseError {
    /// Fewer than six characters.
    TooShort,
    /// A character among the first six is not a hexadecimal digit.
    InvalidDigit,
}

fn hex_digit_val(ch: char) -> (r: Option<u8>)
    ensures
        r is Some <==> is_hex_digit(ch),
        r is Some ==> r->0 == hex_val(ch),
{
    let c = ch as u32;
    if 48 <= c && c <= 57 {
        Some((c - 48) as u8)
    } else if 97 <= c && c <= 102 {
        Some((c - 97 + 10) as u8)
    } else if 65 <= c && c <= 70 {
        Some((c - 65 + 10) as u8)
    } else {
        None
    }
}

/// Parse a `rrggbb` hex color. Returns the channel triple exactly when
/// the string starts with six hex digits; trailing characters are
/// ignored.
pub fn color_from_hex(hex: &str) -> (r: Result<Rgb, ColorParseError>)
    ensures
        r is Ok <==> valid_hex6(hex@),
        !(hex@.len() >= 6) ==> r == Err::<Rgb, ColorParseError>(ColorParseError::TooShort),
        hex@.len() >= 6 && !valid_hex6(hex@) ==> r == Err::<Rgb, ColorParseError>(
            ColorParseError::InvalidDigit,
        ),
        r is Ok ==> r->Ok_0 == (Rgb {
            r: hex_channel(hex@, 0) as u8,
            g: hex_channel(hex@, 1) as u8,
            b: hex_channel(hex@, 2) as u8,
        }),
{
    let n = hex.unicode_len();
    if n < 6 {
        return Err(ColorParseError::TooShort);
    }
    let d0 = hex_digit_val(hex.get_char(0));
    let d1 = hex_digit_val(hex.get_char(1));
    let d2 = hex_digit_val(hex.get_char(2));
    let d3 = hex_digit_val(hex.get_char(3));
    let d4 = hex_digit_val(hex.get_char(4));
    let d5 = hex_digit_val(hex.get_char(5));
    match (d0, d1, d2, d3, d4, d5) {
        (Some(h0), Some(h1), Some(h2), Some(h3), Some(h4), Some(h5)) => Ok(
            Rgb { r: 16 * h0 + h1, g: 16 * h2 + h3, b: 16 * h4 + h5 },
        ),
        _ => Err(ColorParseError::InvalidDigit),
    }
}

impl InstancesVec {
    /// Build the instance array from the point buffer, one instance per
    /// slot in slot order, each with a random color.
    pub fn from_state(lorenz_state: &LorenzState) -> (r: Self)
        ensures
            r.data@.len() == lorenz_state.points@.len(),
            forall|i: int|
                0 <= i < r.data@.len() ==> (#[trigger] r.data@[i]).position
                    == lorenz_state.points@[i],
    {
        let mut data: Vec<Instance> = Vec::new();
        let mut i: usize = 0;
        let n = lorenz_state.points.len();
        while i < n
            invariant
                i <= n,
                n == lorenz_state.points@.len(),
                data@.len() == i,
                forall|j: int|
                    0 <= j < i ==> (#[trigger] data@[j]).position == lorenz_state.points@[j],
            decreases n - i,
        {
            let cr = gen_range_i64(0, 256) as u8;
            let cg = gen_range_i64(0, 256) as u8;
            let cb = gen_range_i64(0, 256) as u8;
            data.push(
                Instance {
                    position: lorenz_state.points[i],
                    color: Rgb { r: cr, g: cg, b: cb },
                },
            );
            i = i + 1;
        }
        InstancesVec { data }
    }

    /// Refresh the instance array from the point buffer, painting every
    /// instance with the default color.
    pub fn update(&mut self, lorenz_state: &LorenzState)
        ensures
            final(self).data@.len() == lorenz_state.points@.len(),
            forall|i: int|
                0 <= i < final(self).data@.len() ==> #[trigger] final(self).data@[i] == (Instance {
                    position: lorenz_state.points@[i],
                    color: default_color(),
                }),
    {
        let color = Rgb { r: 0, g: 255, b: 0 };
        let mut data: Vec<Instance> = Vec::new();
        let mut i: usize = 0;
        let n = lorenz_state.points.len();
        while i < n
            invariant
                i <= n,
                n == lorenz_state.points@.len(),
                data@.len() == i,
                color == default_color(),
                forall|j: int|
                    0 <= j < i ==> #[trigger] data@[j] == (Instance {
                        position: lorenz_state.points@[j],
                        color: default_color(),
                    }),
            decreases n - i,
        {
            data.push(Instance { position: lorenz_state.points[i], color });
            i = i + 1;
        }
        self.data = data;
    }
}

} // verus!
