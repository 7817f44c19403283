use vstd::prelude::*;

verus! {

/// The byte of `px` that lands at offset `k` of its four bytes in memory:
/// the lowest eight bits first, the highest last.
pub open spec fn channel(px: u32, k: int) -> u8 {
    if k == 0 {
        (px & 0xff) as u8
    } else if k == 1 {
        ((px >> 8) & 0xff) as u8
    } else if k == 2 {
        ((px >> 16) & 0xff) as u8
    } else {
        ((px >> 24) & 0xff) as u8
    }
}

/// `bytes` is `pixels` laid out row after row, four bytes to the pixel.
pub open spec fn is_frame_of(bytes: Seq<u8>, pixels: Seq<u32>) -> bool {
    &&& bytes.len() == 4 * pixels.len()
    &&& forall|p: int, k: int|
        0 <= p < pixels.len() && 0 <= k < 4 ==> #[trigger] bytes[4 * p + k] == channel(
            pixels[p],
            k,
        )
}

/// One frame ready for upload: the packed bytes, the length of a row in
/// bytes, and the size of the surface in pixels.
pub struct FrameT {
    pub bytes: Vec<u8>,
    pub pitch: usize,
    pub width: u32,
    pub height: u32,
}

/// The pixel buffer that the renderer fills and the display reads.
pub struct Screen {
    pub screen_buffer: Vec<u32>,
    pub screen_buffer_size: usize,
}

impl Screen {
    /// The recorded size is the buffer's length.
    pub open spec fn wf(&self) -> bool {
        self.screen_buffer_size == self.screen_buffer@.len()
    }

    /// A screen without pixels.
    pub fn new() -> (r: Screen)
        ensures
            r.wf(),
            r.screen_buffer@.len() == 0,
            r.screen_buffer_size == 0,
    {
        Screen { screen_buffer: Vec::new(), screen_buffer_size: 0 }
    }

    /// Replaces the buffer by `w * h` pixels, all zero.
    pub fn init_screen(&mut self, w: u32, h: u32)
        requires
            w * h <= u32::MAX,
            w * h <= usize::MAX,
        ensures
            final(self).wf(),
            final(self).screen_buffer@.len() == w * h,
            forall|i: int| 0 <= i < w * h ==> final(self).screen_buffer@[i] == 0,
    {
        let size: usize = (w * h) as usize;
        self.screen_buffer_size = size;
        self.screen_buffer = vec![0u32; size];
    }

    /// Sets the pixel at `index`; an index past the buffer is ignored.
    pub fn put_pixel(&mut self, index: usize, colour: u32) -> (written: bool)
        requires
            old(self).wf(),
        ensures
            final(self).wf(),
            written == (index < old(self).screen_buffer@.len()),
            written ==> final(self).screen_buffer@ == old(self).screen_buffer@.update(
                index as int,
                colour,
            ),
            !written ==> final(self).screen_buffer@ == old(self).screen_buffer@,
    {
        if index < self.screen_buffer.len() {
            self.screen_buffer[index] = colour;
            true
        } else {
            false
        }
    }

    /// Packs the buffer for upload to a surface `w` pixels wide and `h`
    /// high: four bytes to the pixel, lowest byte first, rows of `w * 4`
    /// bytes.
    pub fn render(&self, w: u32, h: u32) -> (frame: FrameT)
        requires
            w * 4 <= u32::MAX,
            w * 4 <= usize::MAX,
            self.screen_buffer@.len() * 4 <= usize::MAX,
        ensures
            frame.pitch == w * 4,
            frame.width == w,
            frame.height == h,
            is_frame_of(frame.bytes@, self.screen_buffer@),
    {
        let pitch: usize = (w * 4) as usize;
        let n: usize = self.screen_buffer.len();
        let mut bytes: Vec<u8> = Vec::new();
        let mut i: usize = 0;
        while i < n
            invariant
                0 <= i <= n,
                n == self.screen_buffer@.len(),
                is_frame_of(bytes@, self.screen_buffer@.take(i as int)),
            decreases n - i,
        {
            let px: u32 = self.screen_buffer[i];
            let ghost before = bytes@;
            bytes.push((px & 0xff) as u8);
            bytes.push(((px >> 8) & 0xff) as u8);
            bytes.push(((px >> 16) & 0xff) as u8);
            bytes.push(((px >> 24) & 0xff) as u8);
            proof {
                let pixels = self.screen_buffer@.take(i as int + 1);
                assert forall|p: int, k: int| 0 <= p < pixels.len() && 0 <= k < 4 implies #[trigger]
                bytes@[4 * p + k] == channel(pixels[p], k) by {
                    if p < i {
                        assert(bytes@[4 * p + k] == before[4 * p + k]);
                        assert(pixels[p] == self.screen_buffer@.take(i as int)[p]);
                    }
                }
            }
            i += 1;
        }
        proof {
            assert(self.screen_buffer@.take(n as int) =~= self.screen_buffer@);
        }
        FrameT { bytes, pitch, width: w, height: h }
    }
}

} // verus!
