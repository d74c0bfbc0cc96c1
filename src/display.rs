//! The monochrome framebuffer, one pixel per cell, addressed `x + y * width`.
use vstd::prelude::*;

verus! {

pub const DISPLAY_WIDTH: usize = 64;
pub const DISPLAY_HEIGHT: usize = 32;

/// Number of pixels.
pub const DISPLAY_SIZE: usize = 2048;

/// A framebuffer of the right size whose pixels are all 0 or 1.
pub open spec fn canonical_video(video: Seq<u32>) -> bool {
    &&& video.len() == DISPLAY_SIZE
    &&& forall|p: int| 0 <= p < video.len() ==> #[trigger] video[p] <= 1
}

/// The framebuffer with every pixel off.
pub open spec fn blank_video() -> Seq<u32> {
    Seq::new(DISPLAY_SIZE as nat, |p: int| 0u32)
}

pub struct Display {
    video: [u32; DISPLAY_SIZE],
}

impl View for Display {
    type V = Seq<u32>;

    closed spec fn view(&self) -> Seq<u32> {
        self.video@
    }
}

impl Display {
    /// The pixel array always holds `DISPLAY_SIZE` pixels.
    pub proof fn lemma_len(&self)
        ensures
            self@.len() == DISPLAY_SIZE,
    {
    }

    /// A framebuffer with every pixel off.
    pub fn init() -> (r: Display)
        ensures
            r@ == blank_video(),
    {
        let r = Display { video: [0; DISPLAY_SIZE] };
        assert(r@ =~= blank_video());
        r
    }

    /// Turns every pixel off.
    pub fn clear(&mut self)
        ensures
            final(self)@ == blank_video(),
    {
        self.video = [0; DISPLAY_SIZE];
        assert(self@ =~= blank_video());
    }

    pub fn get_pixel(&self, index: usize) -> (r: u32)
        requires
            index < DISPLAY_SIZE,
        ensures
            r == self@[index as int],
    {
        self.video[index]
    }

    pub fn write_pixel(&mut self, index: usize, value: u32)
        requires
            index < DISPLAY_SIZE,
        ensures
            final(self)@ == old(self)@.update(index as int, value),
    {
        self.video[index] = value;
    }

    /// All pixels, row after row.
    pub fn get_buffer(&self) -> (r: &[u32])
        ensures
            r@ == self@,
    {
        self.video.as_slice()
    }
}

} // verus!
