use crate::machine::{Chip8, MachineState, PIXEL_OFF, PIXEL_ON, SCREEN_HEIGHT, SCREEN_WIDTH};
use vstd::prelude::*;

verus! {

/// Bit `k` of `b`, counted from the least significant bit.
pub open spec fn bit_of(b: u8, k: u8) -> u8 {
    (b >> k) & 1
}

/// The byte of the framebuffer that holds pixel (x, y): eight bytes a row.
pub open spec fn byte_index(x: int, y: int) -> int {
    y * 8 + x / 8
}

/// The bit of that byte that holds pixel (x, y): the leftmost pixel is the
/// most significant bit.
pub open spec fn bit_index(x: int) -> u8 {
    (7 - x % 8) as u8
}

pub open spec fn on_screen(x: int, y: int) -> bool {
    0 <= x < SCREEN_WIDTH && 0 <= y < SCREEN_HEIGHT
}

/// The value, 0 or 1, of pixel (x, y) of a packed framebuffer.
pub open spec fn pixel_at(screen: Seq<u8>, x: int, y: int) -> u8 {
    bit_of(screen[byte_index(x, y)], bit_index(x))
}

/// The framebuffer after writing `v` to pixel (x, y): 1 sets its bit, 0
/// clears it, any other value leaves the framebuffer as it was.
pub open spec fn with_pixel(screen: Seq<u8>, x: int, y: int, v: u8) -> Seq<u8> {
    let b = screen[byte_index(x, y)];
    let mask = (1u8 << bit_index(x)) as u8;
    if v == 1 {
        screen.update(byte_index(x, y), b | mask)
    } else if v == 0 {
        screen.update(byte_index(x, y), b & (mask ^ 0xFF))
    } else {
        screen
    }
}

proof fn lemma_bits(b: u8, k: u8, j: u8)
    requires
        k < 8,
        j < 8,
    ensures
        bit_of(b, j) <= 1,
        bit_of(b | ((1u8 << k) as u8), j) == if j == k { 1 } else { bit_of(b, j) },
        bit_of(b & (((1u8 << k) as u8) ^ 0xFF), j) == if j == k { 0 } else { bit_of(b, j) },
{
    assert(((b >> j) & 1) <= 1) by (bit_vector);
    assert(((b | ((1u8 << k) as u8)) >> j) & 1 == if j == k { 1 } else { (b >> j) & 1 })
        by (bit_vector)
        requires
            k < 8,
            j < 8,
    ;
    assert(((b & (((1u8 << k) as u8) ^ 0xFF)) >> j) & 1 == if j == k { 0 } else { (b >> j) & 1 })
        by (bit_vector)
        requires
            k < 8,
            j < 8,
    ;
}

/// Every pixel is 0 or 1.
pub proof fn lemma_pixel_is_bit(screen: Seq<u8>, x: int, y: int)
    ensures
        pixel_at(screen, x, y) <= 1,
{
    let b = screen[byte_index(x, y)];
    let k = bit_index(x);
    assert(((b >> k) & 1) <= 1) by (bit_vector);
}

/// Writing 0 or 1 to one on-screen pixel gives that pixel the value written
/// and leaves every other on-screen pixel as it was.
pub proof fn lemma_with_pixel(screen: Seq<u8>, x: int, y: int, v: u8, px: int, py: int)
    requires
        screen.len() == 256,
        on_screen(x, y),
        on_screen(px, py),
        v <= 1,
    ensures
        with_pixel(screen, x, y, v).len() == 256,
        pixel_at(with_pixel(screen, x, y, v), px, py) == if px == x && py == y {
            v
        } else {
            pixel_at(screen, px, py)
        },
{
    if byte_index(px, py) == byte_index(x, y) {
        assert(py == y && px / 8 == x / 8);
        lemma_bits(screen[byte_index(x, y)], bit_index(x), bit_index(px));
    }
}

proof fn lemma_byte_from_bits(a: u8, b: u8)
    requires
        bit_of(a, 0) == bit_of(b, 0),
        bit_of(a, 1) == bit_of(b, 1),
        bit_of(a, 2) == bit_of(b, 2),
        bit_of(a, 3) == bit_of(b, 3),
        bit_of(a, 4) == bit_of(b, 4),
        bit_of(a, 5) == bit_of(b, 5),
        bit_of(a, 6) == bit_of(b, 6),
        bit_of(a, 7) == bit_of(b, 7),
    ensures
        a == b,
{
    assert(a == b) by (bit_vector)
        requires
            (a >> 0u8) & 1 == (b >> 0u8) & 1,
            (a >> 1u8) & 1 == (b >> 1u8) & 1,
            (a >> 2u8) & 1 == (b >> 2u8) & 1,
            (a >> 3u8) & 1 == (b >> 3u8) & 1,
            (a >> 4u8) & 1 == (b >> 4u8) & 1,
            (a >> 5u8) & 1 == (b >> 5u8) & 1,
            (a >> 6u8) & 1 == (b >> 6u8) & 1,
            (a >> 7u8) & 1 == (b >> 7u8) & 1,
    ;
}

/// Two framebuffers with the same pixels are the same bytes.
pub proof fn lemma_screen_from_pixels(s1: Seq<u8>, s2: Seq<u8>)
    requires
        s1.len() == 256,
        s2.len() == 256,
        forall|px: int, py: int| on_screen(px, py) ==> #[trigger] pixel_at(s1, px, py) == pixel_at(s2, px, py),
    ensures
        s1 == s2,
{
    assert forall|k: int| 0 <= k < 256 implies s1[k] == s2[k] by {
        let y = k / 8;
        let x0 = (k % 8) * 8;
        assert(pixel_at(s1, x0 + 7, y) == pixel_at(s2, x0 + 7, y));
        assert(pixel_at(s1, x0 + 6, y) == pixel_at(s2, x0 + 6, y));
        assert(pixel_at(s1, x0 + 5, y) == pixel_at(s2, x0 + 5, y));
        assert(pixel_at(s1, x0 + 4, y) == pixel_at(s2, x0 + 4, y));
        assert(pixel_at(s1, x0 + 3, y) == pixel_at(s2, x0 + 3, y));
        assert(pixel_at(s1, x0 + 2, y) == pixel_at(s2, x0 + 2, y));
        assert(pixel_at(s1, x0 + 1, y) == pixel_at(s2, x0 + 1, y));
        assert(pixel_at(s1, x0, y) == pixel_at(s2, x0, y));
        lemma_byte_from_bits(s1[k], s2[k]);
    }
    assert(s1 =~= s2);
}

impl Chip8 {
    /// The value, 0 or 1, of the on-screen pixel (x, y).
    pub fn get_pixel(&self, x: u8, y: u8) -> (r: u8)
        requires
            self.wf(),
            x < SCREEN_WIDTH,
            y < SCREEN_HEIGHT,
        ensures
            r == pixel_at(self@.screen, x as int, y as int),
            r <= 1,
    {
        proof {
            lemma_pixel_is_bit(self@.screen, x as int, y as int);
        }
        let byte_index: usize = y as usize * 8 + x as usize / 8;
        let bit_index: u8 = 7 - (x % 8);
        (self.video_memory[byte_index] >> bit_index) & 0x01
    }

    /// Sets the on-screen pixel (x, y) when `v` is 1, clears it when `v` is 0,
    /// and changes nothing for other values.
    pub fn set_pixel(&mut self, x: u8, y: u8, v: u8)
        requires
            old(self).wf(),
            x < SCREEN_WIDTH,
            y < SCREEN_HEIGHT,
        ensures
            final(self).wf(),
            final(self)@ == (MachineState {
                screen: with_pixel(old(self)@.screen, x as int, y as int, v),
                ..old(self)@
            }),
    {
        let byte_index: usize = y as usize * 8 + x as usize / 8;
        let bit_index: u8 = 7 - (x % 8);
        let b = self.video_memory[byte_index];
        if v == 1 {
            self.video_memory.set(byte_index, b | (1u8 << bit_index));
        } else if v == 0 {
            self.video_memory.set(byte_index, b & ((1u8 << bit_index) ^ 0xFF));
        }
    }

    /// Composes `pixel_value` onto pixel (x, y). Off screen nothing changes
    /// and the result is `PIXEL_OFF`; on screen the pixel becomes `PIXEL_ON`
    /// exactly when its old value differs from `pixel_value` (their XOR, for
    /// a value of 0 or 1), and that new value is returned.
    pub fn xor_pixel(&mut self, x: u8, y: u8, pixel_value: u8) -> (r: u8)
        requires
            old(self).wf(),
        ensures
            final(self).wf(),
            !on_screen(x as int, y as int) ==> r == PIXEL_OFF && *final(self) == *old(self),
            on_screen(x as int, y as int) ==> {
                &&& r == if pixel_at(old(self)@.screen, x as int, y as int) != pixel_value {
                    PIXEL_ON
                } else {
                    PIXEL_OFF
                }
                &&& final(self)@ == (MachineState {
                    screen: with_pixel(old(self)@.screen, x as int, y as int, r),
                    ..old(self)@
                })
            },
    {
        if x >= SCREEN_WIDTH || y >= SCREEN_HEIGHT {
            PIXEL_OFF
        } else {
            let current_pixel_value = self.get_pixel(x, y);
            let new_pixel_value = if current_pixel_value != pixel_value {
                PIXEL_ON
            } else {
                PIXEL_OFF
            };
            self.set_pixel(x, y, new_pixel_value);
            new_pixel_value
        }
    }
}

} // verus!
