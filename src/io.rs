//! What a graphical front end exchanges with the machine: input buttons and
//! the conversion of the monochrome screen buffer into RGBA pixels.
use vstd::prelude::*;

verus! {

#[derive(Debug, Clone, Copy)]
pub enum Button {
    Zero,
    One,
    Two,
    Three,
}

impl Button {
    /// The button's position, counting from zero.
    pub open spec fn index(self) -> nat {
        match self {
            Button::Zero => 0,
            Button::One => 1,
            Button::Two => 2,
            Button::Three => 3,
        }
    }

    /// The button at position `b`.
    pub fn new(b: usize) -> (r: Button)
        requires
            b < 4,
        ensures
            r.index() == b,
    {
        match b {
            0 => Button::Zero,
            1 => Button::One,
            2 => Button::Two,
            _ => Button::Three,
        }
    }
}

/// Bit `i` of `b`, counting from the most significant (`i` = 0) down.
pub open spec fn pixel_on(b: u8, i: int) -> bool {
    (b >> (7 - i) as u8) & 1 == 1
}

/// Channel `c` (red, green, blue, alpha) of a pixel: white where the bit is
/// set, opaque black elsewhere.
pub open spec fn channel(on: bool, c: int) -> u8 {
    if on || c == 3 {
        0xFF
    } else {
        0
    }
}

/// Expands each byte of a monochrome screen buffer into eight RGBA pixels,
/// most significant bit first.
pub fn emu_screen_to_texture_data(screen: &[u8]) -> (r: Vec<u8>)
    requires
        32 * screen@.len() <= usize::MAX,
    ensures
        r@.len() == 32 * screen@.len(),
        forall|k: int, i: int, c: int|
            0 <= k < screen@.len() && 0 <= i < 8 && 0 <= c < 4 ==> #[trigger] r@[32 * k + 4 * i + c]
                == channel(pixel_on(screen@[k], i), c),
{
    let mut out: Vec<u8> = Vec::new();
    let mut k: usize = 0;
    while k < screen.len()
        invariant
            k <= screen@.len(),
            32 * screen@.len() <= usize::MAX,
            out@.len() == 32 * k,
            forall|k2: int, i: int, c: int|
                0 <= k2 < k && 0 <= i < 8 && 0 <= c < 4 ==> #[trigger] out@[32 * k2 + 4 * i + c]
                    == channel(pixel_on(screen@[k2], i), c),
        decreases screen@.len() - k,
    {
        let byte = screen[k];
        let mut i: usize = 0;
        while i < 8
            invariant
                k < screen@.len(),
                byte == screen@[k as int],
                i <= 8,
                out@.len() == 32 * k + 4 * i,
                forall|k2: int, i2: int, c: int|
                    0 <= k2 < k && 0 <= i2 < 8 && 0 <= c < 4 ==> #[trigger] out@[32 * k2 + 4 * i2
                        + c] == channel(pixel_on(screen@[k2], i2), c),
                forall|i2: int, c: int|
                    0 <= i2 < i && 0 <= c < 4 ==> #[trigger] out@[32 * k + 4 * i2 + c] == channel(
                        pixel_on(byte, i2),
                        c,
                    ),
            decreases 8 - i,
        {
            let on = (byte >> (7 - i) as u8) & 1 == 1;
            let level: u8 = if on { 0xFF } else { 0 };
            out.push(level);
            out.push(level);
            out.push(level);
            out.push(0xFF);
            i = i + 1;
        }
        k = k + 1;
    }
    out
}

} // verus!
