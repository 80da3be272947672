use vstd::prelude::*;

verus! {

/// Index of the grey ramp or colour-cube step that an 8-bit channel falls on.
pub open spec fn cube_step(c: u8) -> int {
    if c < 48 {
        0
    } else if (c - 35) / 40 > 5 {
        5
    } else {
        (c - 35) / 40
    }
}

/// The 256-colour palette index that stands for an RGB colour: the grey ramp when
/// the three channels are equal (its last step, 255, for the grey that would fall
/// one step past the ramp), the 6x6x6 cube otherwise.
pub open spec fn palette_index(r: u8, g: u8, b: u8) -> int {
    if r == g && g == b {
        if r < 8 {
            16
        } else if r > 248 {
            231
        } else if r == 248 {
            255
        } else {
            (r - 8) / 10 + 232
        }
    } else {
        16 + 36 * cube_step(r) + 6 * cube_step(g) + cube_step(b)
    }
}

fn channel_step(c: u8) -> (r: u8)
    ensures
        r as int == cube_step(c),
        r <= 5,
{
    if c < 48 {
        0
    } else {
        let s: u16 = (c as u16 - 35) / 40;
        if s > 5 {
            5
        } else {
            s as u8
        }
    }
}

/// Convert an RGB colour to the closest entry of the 256-colour palette.
pub fn rgb_to_256(r: u8, g: u8, b: u8) -> (idx: u8)
    ensures
        idx as int == palette_index(r, g, b),
{
    if r == g && g == b {
        if r < 8 {
            return 16;
        }
        if r > 248 {
            return 231;
        }
        if r == 248 {
            return 255;
        }
        let step: u16 = (r as u16 - 8) / 10;
        return (step as u8) + 232;
    }
    let r_idx = channel_step(r);
    let g_idx = channel_step(g);
    let b_idx = channel_step(b);
    16 + 36 * r_idx + 6 * g_idx + b_idx
}

} // verus!
