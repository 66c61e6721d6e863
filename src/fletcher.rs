//! The sixteen-bit Fletcher checksum, kept as two running eight-bit sums.

use vstd::prelude::*;

verus! {

/// The running sums `(a, b)` after the bytes of `data` are folded into the
/// sums `(a, b)`, one byte at a time: `a` gains the byte and `b` gains the
/// new `a`, both modulo 255.
pub open spec fn fletcher_sums(a: int, b: int, data: Seq<u8>) -> (int, int)
    decreases data.len(),
{
    if data.len() == 0 {
        (a, b)
    } else {
        let (a0, b0) = fletcher_sums(a, b, data.drop_last());
        let a1 = (a0 + data.last()) % 255;
        (a1, (b0 + a1) % 255)
    }
}

/// A running Fletcher checksum: the two eight-bit sums that a stream of
/// buffers updates.
#[derive(Clone, Copy)]
pub struct Fletcher {
    a: u8,
    b: u8,
}

impl View for Fletcher {
    type V = (int, int);

    closed spec fn view(&self) -> (int, int) {
        (self.a as int, self.b as int)
    }
}

/// The text that `format!` writes for a checksum's printable form, from its
/// size in bytes, the two sums and the checksum. It depends on these values
/// alone.
pub uninterp spec fn fletcher_text(size: int, a: int, b: int, c: int) -> Seq<char>;

/// Relies on std's `format!`: writes the sums and the checksum in
/// hexadecimal inside a fixed frame.
#[verifier::external_body]
fn render_fletcher(size: usize, a: u8, b: u8, c: u16) -> (r: String)
    ensures
        r@ == fletcher_text(size as int, a as int, b as int, c as int),
{
    format!("Fletcher[{}]:{{a:0x{:02x},b:0x{:02x},c:0x{:04x}}}", size, a, b, c)
}

impl Fletcher {
    /// A checksum with both sums zero.
    pub fn new() -> (f: Fletcher)
        ensures
            f@ == (0int, 0int),
    {
        Fletcher { a: 0, b: 0 }
    }

    /// Sets the two running sums.
    pub fn init(&mut self, a: u8, b: u8)
        ensures
            final(self)@ == (a as int, b as int),
    {
        self.a = a;
        self.b = b;
    }

    /// Sets both running sums back to zero.
    pub fn reset(&mut self)
        ensures
            final(self)@ == (0int, 0int),
    {
        self.a = 0;
        self.b = 0;
    }

    /// Folds `buffer` into the running sums and returns the checksum: `b`
    /// in the high byte, `a` in the low one.
    pub fn checksum(&mut self, buffer: &[u8]) -> (c: u16)
        ensures
            final(self)@ == fletcher_sums(old(self)@.0, old(self)@.1, buffer@),
            c == final(self)@.1 * 256 + final(self)@.0,
    {
        let mut a: u16 = self.a as u16;
        let mut b: u16 = self.b as u16;
        let mut i: usize = 0;
        while i < buffer.len()
            invariant
                0 <= i <= buffer@.len(),
                a <= 255,
                b <= 255,
                i > 0 ==> a < 255 && b < 255,
                i == 0 ==> a == old(self)@.0 && b == old(self)@.1,
                (a as int, b as int) == fletcher_sums(
                    old(self)@.0,
                    old(self)@.1,
                    buffer@.subrange(0, i as int),
                ),
            decreases buffer@.len() - i,
        {
            let d: u8 = buffer[i];
            assert(buffer@.subrange(0, i + 1).drop_last() == buffer@.subrange(0, i as int));
            a = (a + d as u16) % 255;
            b = (b + a) % 255;
            i = i + 1;
        }
        assert(buffer@.subrange(0, buffer@.len() as int) == buffer@);
        self.a = a as u8;
        self.b = b as u8;
        b * 256 + a
    }

    /// The printable form: both sums and the checksum, in hexadecimal.
    pub fn to_string(&self) -> (s: String)
        ensures
            s@ == fletcher_text(
                vstd::layout::size_of::<Fletcher>() as int,
                self@.0,
                self@.1,
                self@.1 * 256 + self@.0,
            ),
    {
        let c: u16 = self.b as u16 * 256 + self.a as u16;
        render_fletcher(core::mem::size_of::<Fletcher>(), self.a, self.b, c)
    }
}

} // verus!
