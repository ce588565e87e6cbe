//! The display compositor: a packed monochrome bitmap of 64 by 32
//! visible pixels with a wraparound margin, written only by XOR
//! sprite blits and full clears.
//!
//! A sprite row is eight pixels wide. To draw it at column `x`, the
//! two buffer bytes that span `x` are combined into one 16-bit window,
//! the sprite byte is shifted left by `8 - x % 8` to line up with that
//! window, XORed in, and the two bytes are written back. A collision
//! is reported when the blit turns any previously-set pixel off.

use vstd::prelude::*;

use crate::memory::be16;

verus! {

pub const DISPLAY_VISIBLE_WIDTH: usize = 64;
pub const DISPLAY_VISIBLE_HEIGHT: usize = 32;

/// Width of a packed row in bytes, one more than the visible columns
/// need, so that a sprite straddling the right edge lands in the
/// margin byte instead of wrapping on every write.
pub const DISPLAY_TOTAL_WIDTH: usize = DISPLAY_VISIBLE_WIDTH / 8 + 1;

/// Stored rows, a few more than are visible, absorbing sprite rows
/// drawn just below the visible area.
pub const DISPLAY_TOTAL_HEIGHT: usize = DISPLAY_VISIBLE_HEIGHT + 4;

/// `DISPLAY_TOTAL_WIDTH` bytes for each of the `DISPLAY_TOTAL_HEIGHT`
/// stored rows.
pub const DISPLAY_BYTES: usize = 324;

/// The high byte of a 16-bit window.
pub open spec fn hi8(w: u16) -> u8 {
    (w >> 8) as u8
}

/// The low byte of a 16-bit window.
pub open spec fn lo8(w: u16) -> u8 {
    (w & 0xff) as u8
}

/// The 16-bit window made of the two bytes that row `r` holds at byte
/// columns `bo` and `bo + 1`.
pub open spec fn row_window(buf: Seq<u8>, r: int, bo: int) -> u16 {
    be16(buf[r * DISPLAY_TOTAL_WIDTH + bo], buf[r * DISPLAY_TOTAL_WIDTH + bo + 1])
}

/// The window of row `r` after sprite byte `sb`, shifted left by `sh`,
/// is XORed in.
pub open spec fn blit_window(buf: Seq<u8>, r: int, bo: int, sh: u16, sb: u8) -> u16 {
    row_window(buf, r, bo) ^ ((sb as u16) << sh)
}

/// The buffer after one sprite row is XORed into row `r`.
pub open spec fn blit_one(buf: Seq<u8>, r: int, bo: int, sh: u16, sb: u8) -> Seq<u8> {
    let neww = blit_window(buf, r, bo, sh, sb);
    buf.update(r * DISPLAY_TOTAL_WIDTH + bo, hi8(neww)).update(
        r * DISPLAY_TOTAL_WIDTH + bo + 1,
        lo8(neww),
    )
}

/// True when XORing this sprite row turns some set pixel of row `r` off.
pub open spec fn hit_one(buf: Seq<u8>, r: int, bo: int, sh: u16, sb: u8) -> bool {
    let window = row_window(buf, r, bo);
    (blit_window(buf, r, bo, sh, sb) & window) != window
}

/// The buffer after the first `k` rows of sprite `sp` are blitted at
/// pixel column `x`, starting in display row `y`.
pub open spec fn blit_upto(buf: Seq<u8>, x: int, y: int, sp: Seq<u8>, k: int) -> Seq<u8>
    decreases k,
{
    if k <= 0 {
        buf
    } else {
        blit_one(blit_upto(buf, x, y, sp, k - 1), y + k - 1, x / 8, (8 - x % 8) as u16, sp[k - 1])
    }
}

/// True when one of the first `k` sprite rows collides with a pixel
/// already set when that row is blitted.
pub open spec fn collided_upto(buf: Seq<u8>, x: int, y: int, sp: Seq<u8>, k: int) -> bool
    decreases k,
{
    if k <= 0 {
        false
    } else {
        collided_upto(buf, x, y, sp, k - 1) || hit_one(
            blit_upto(buf, x, y, sp, k - 1),
            y + k - 1,
            x / 8,
            (8 - x % 8) as u16,
            sp[k - 1],
        )
    }
}

/// The buffer after the whole sprite is blitted.
pub open spec fn blit(buf: Seq<u8>, x: int, y: int, sp: Seq<u8>) -> Seq<u8> {
    blit_upto(buf, x, y, sp, sp.len() as int)
}

/// True when the whole blit overlapped any previously-set pixel.
pub open spec fn collided(buf: Seq<u8>, x: int, y: int, sp: Seq<u8>) -> bool {
    collided_upto(buf, x, y, sp, sp.len() as int)
}

/// The packed pixel buffer. Its view is the flat sequence of stored
/// bytes, row by row, `DISPLAY_TOTAL_WIDTH` bytes per row.
pub struct Display {
    memory: Vec<u8>,
}

impl View for Display {
    type V = Seq<u8>;

    closed spec fn view(&self) -> Seq<u8> {
        self.memory@
    }
}

impl Display {
    /// The buffer spans exactly the stored rows.
    pub closed spec fn wf(&self) -> bool {
        self.memory@.len() == DISPLAY_BYTES
    }

    /// What well-formedness guarantees about the view: the buffer
    /// spans exactly the stored rows.
    pub proof fn lemma_wf(&self)
        requires
            self.wf(),
        ensures
            self@.len() == DISPLAY_BYTES,
    {
    }

    /// A display with every pixel off.
    pub fn new() -> (r: Self)
        ensures
            r.wf(),
            r@ == Seq::new(DISPLAY_BYTES as nat, |i: int| 0u8),
    {
        let mut memory: Vec<u8> = Vec::new();
        let mut i: usize = 0;
        while i < DISPLAY_BYTES
            invariant
                i <= DISPLAY_BYTES,
                memory@.len() == i,
                forall|j: int| 0 <= j < i ==> memory@[j] == 0u8,
            decreases DISPLAY_BYTES - i,
        {
            memory.push(0);
            i += 1;
        }
        let r = Display { memory };
        proof {
            assert(r@ =~= Seq::new(DISPLAY_BYTES as nat, |i: int| 0u8));
        }
        r
    }

    /// Turns every pixel off.
    pub fn clear(&mut self)
        requires
            old(self).wf(),
        ensures
            final(self).wf(),
            final(self)@ == Seq::new(DISPLAY_BYTES as nat, |i: int| 0u8),
    {
        let mut i: usize = 0;
        while i < DISPLAY_BYTES
            invariant
                i <= DISPLAY_BYTES,
                self.wf(),
                forall|j: int| 0 <= j < i ==> self@[j] == 0u8,
            decreases DISPLAY_BYTES - i,
        {
            let ghost pre = self@;
            self.memory.set(i, 0);
            proof {
                assert(self@ == pre.update(i as int, 0u8));
                assert(forall|j: int| 0 <= j < i + 1 ==> self@[j] == 0u8);
            }
            i += 1;
        }
        proof {
            assert(self@ =~= Seq::new(DISPLAY_BYTES as nat, |i: int| 0u8));
        }
    }

    /// XOR-composes the sprite onto the buffer at pixel column `x`,
    /// top row `y`, and reports whether it overlapped a set pixel:
    /// 1 exactly when some already-set pixel was turned off. Fails if
    /// and only if the sprite does not fit the stored rows, and then
    /// changes nothing.
    pub fn apply_sprites(&mut self, x: u8, y: u8, sprites: &[u8]) -> (r: Option<u8>)
        requires
            old(self).wf(),
        ensures
            final(self).wf(),
            x < DISPLAY_VISIBLE_WIDTH && y + sprites@.len() <= DISPLAY_TOTAL_HEIGHT ==> {
                &&& r == Some(
                    if collided(old(self)@, x as int, y as int, sprites@) {
                        1u8
                    } else {
                        0u8
                    },
                )
                &&& final(self)@ == blit(old(self)@, x as int, y as int, sprites@)
            },
            !(x < DISPLAY_VISIBLE_WIDTH && y + sprites@.len() <= DISPLAY_TOTAL_HEIGHT) ==> {
                &&& r == None::<u8>
                &&& final(self)@ == old(self)@
            },
    {
        if x as usize >= DISPLAY_VISIBLE_WIDTH {
            return None;
        }
        if y as usize > DISPLAY_TOTAL_HEIGHT
            || sprites.len() > DISPLAY_TOTAL_HEIGHT - y as usize {
            return None;
        }

        let byte_offset = (x / 8) as usize;
        let bit_offset = x % 8;
        let mut collision: u8 = 0;
        let n = sprites.len();
        let mut s: usize = 0;
        while s < n
            invariant
                s <= n,
                n == sprites@.len(),
                x < DISPLAY_VISIBLE_WIDTH,
                y + n <= DISPLAY_TOTAL_HEIGHT,
                byte_offset == x as int / 8,
                byte_offset + 1 < DISPLAY_TOTAL_WIDTH,
                bit_offset == x as int % 8,
                old(self).wf(),
                self.wf(),
                self@ == blit_upto(old(self)@, x as int, y as int, sprites@, s as int),
                collision == (if collided_upto(old(self)@, x as int, y as int, sprites@, s as int) {
                    1u8
                } else {
                    0u8
                }),
            decreases n - s,
        {
            let curr_r = s + y as usize;
            proof {
                assert(curr_r < DISPLAY_TOTAL_HEIGHT);
                assert(curr_r * DISPLAY_TOTAL_WIDTH <= 35 * DISPLAY_TOTAL_WIDTH)
                    by (nonlinear_arith)
                    requires
                        curr_r < 36,
                ;
            }
            let idx = curr_r * DISPLAY_TOTAL_WIDTH + byte_offset;
            assert(idx + 1 < DISPLAY_BYTES);
            let row_bh = self.memory[idx] as u16;
            let row_bl = self.memory[idx + 1] as u16;
            let row_copy = row_bh * 0x100 + row_bl;
            let shift = 8 - bit_offset;
            let sprite_row_apply = (sprites[s] as u16) << (shift as u16);
            let row = row_copy ^ sprite_row_apply;

            assert(row >> 8 < 0x100 && row & 0xff < 0x100) by (bit_vector);
            self.memory.set(idx, (row >> 8) as u8);
            self.memory.set(idx + 1, (row & 0xff) as u8);

            if row & row_copy != row_copy {
                collision = 1;
            }

            proof {
                let ghost pre = blit_upto(old(self)@, x as int, y as int, sprites@, s as int);
                assert(row_copy == row_window(pre, curr_r as int, byte_offset as int));
                assert(row == blit_window(
                    pre,
                    curr_r as int,
                    byte_offset as int,
                    shift as u16,
                    sprites@[s as int],
                ));
                assert(self@ =~= blit_one(
                    pre,
                    curr_r as int,
                    byte_offset as int,
                    shift as u16,
                    sprites@[s as int],
                ));
                assert(self@ == blit_upto(
                    old(self)@,
                    x as int,
                    y as int,
                    sprites@,
                    s as int + 1,
                ));
            }
            s += 1;
        }

        Some(collision)
    }

    /// Read-only access to the packed buffer for presentation; the
    /// backend masks off the wraparound margin.
    pub fn get_video_buf(&self) -> (r: Option<&[u8]>)
        requires
            self.wf(),
        ensures
            r is Some && r->0@ == self@,
    {
        Some(self.memory.as_slice())
    }
}

} // verus!
