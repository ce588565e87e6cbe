//! The address space: a flat byte-addressable store holding the font
//! sprite table at low addresses and the loaded program from 0x200 on,
//! together with the call stack used by CALL and RET.

use vstd::prelude::*;

use crate::stack::Stack;
use crate::stack::STACK_SIZE;

verus! {

pub const ROM_START_ADDR: usize = 0;
pub const EXE_START_ADDR: usize = 0x200;
pub const SPRITE_SIZE: usize = 0x5;
pub const MEM_SIZE: usize = 0xFFF;
pub const FONT_GLYPHS: usize = 16;

pub const FONT_TABLE_SIZE: usize = 80;

/// The built-in font: sixteen glyphs of five rows each, the bitmap
/// digits 0 through F, loaded at the bottom of the address space
/// before any program runs.
pub open spec fn font_table() -> Seq<u8> {
    seq![
        0xF0u8, 0x90, 0x90, 0x90, 0xF0,
        0x20, 0x60, 0x20, 0x20, 0x70,
        0xF0, 0x10, 0xF0, 0x80, 0xF0,
        0xF0, 0x10, 0xF0, 0x10, 0xF0,
        0x90, 0x90, 0xF0, 0x10, 0x10,
        0xF0, 0x80, 0xF0, 0x10, 0xF0,
        0xF0, 0x80, 0xF0, 0x90, 0xF0,
        0xF0, 0x10, 0x20, 0x40, 0x40,
        0xF0, 0x90, 0xF0, 0x90, 0xF0,
        0xF0, 0x90, 0xF0, 0x10, 0xF0,
        0xF0, 0x90, 0xF0, 0x90, 0x90,
        0xE0, 0x90, 0xE0, 0x90, 0xE0,
        0xF0, 0x80, 0x80, 0x80, 0xF0,
        0xE0, 0x90, 0x90, 0x90, 0xE0,
        0xF0, 0x80, 0xF0, 0x80, 0xF0,
        0xF0, 0x80, 0xF0, 0x80, 0x80,
    ]
}

/// The font table as loadable bytes, glyph by glyph.
pub fn font_sprites() -> (r: Vec<u8>)
    ensures
        r@ == font_table(),
        r@.len() == FONT_TABLE_SIZE,
{
    let mut v: Vec<u8> = Vec::new();
    v.push(0xF0); v.push(0x90); v.push(0x90); v.push(0x90); v.push(0xF0);
    v.push(0x20); v.push(0x60); v.push(0x20); v.push(0x20); v.push(0x70);
    v.push(0xF0); v.push(0x10); v.push(0xF0); v.push(0x80); v.push(0xF0);
    v.push(0xF0); v.push(0x10); v.push(0xF0); v.push(0x10); v.push(0xF0);
    v.push(0x90); v.push(0x90); v.push(0xF0); v.push(0x10); v.push(0x10);
    v.push(0xF0); v.push(0x80); v.push(0xF0); v.push(0x10); v.push(0xF0);
    v.push(0xF0); v.push(0x80); v.push(0xF0); v.push(0x90); v.push(0xF0);
    v.push(0xF0); v.push(0x10); v.push(0x20); v.push(0x40); v.push(0x40);
    v.push(0xF0); v.push(0x90); v.push(0xF0); v.push(0x90); v.push(0xF0);
    v.push(0xF0); v.push(0x90); v.push(0xF0); v.push(0x10); v.push(0xF0);
    v.push(0xF0); v.push(0x90); v.push(0xF0); v.push(0x90); v.push(0x90);
    v.push(0xE0); v.push(0x90); v.push(0xE0); v.push(0x90); v.push(0xE0);
    v.push(0xF0); v.push(0x80); v.push(0x80); v.push(0x80); v.push(0xF0);
    v.push(0xE0); v.push(0x90); v.push(0x90); v.push(0x90); v.push(0xE0);
    v.push(0xF0); v.push(0x80); v.push(0xF0); v.push(0x80); v.push(0xF0);
    v.push(0xF0); v.push(0x80); v.push(0xF0); v.push(0x80); v.push(0x80);
    proof {
        assert(v@ =~= font_table());
    }
    v
}

/// The big-endian 16-bit word read from two consecutive bytes.
pub open spec fn be16(hi: u8, lo: u8) -> u16 {
    (hi * 0x100 + lo) as u16
}

/// The mathematical content of a `Memory`: the byte store and the call
/// stack of return addresses, oldest first.
pub ghost struct MemView {
    pub bytes: Seq<u8>,
    pub stack: Seq<u16>,
}

/// Byte-addressable memory of `MEM_SIZE` bytes plus the bounded call
/// stack. Every access is bounds-checked before any mutation.
pub struct Memory {
    memory: Vec<u8>,
    stack: Stack,
}

impl View for Memory {
    type V = MemView;

    closed spec fn view(&self) -> MemView {
        MemView { bytes: self.memory@, stack: self.stack@ }
    }
}

impl Memory {
    /// The byte store spans the whole address space and the stack
    /// storage is intact.
    pub closed spec fn wf(&self) -> bool {
        self.memory@.len() == MEM_SIZE && self.stack.wf()
    }

    /// What well-formedness guarantees about the view: a full-size
    /// byte store and a bounded call stack.
    pub proof fn lemma_wf(&self)
        requires
            self.wf(),
        ensures
            self@.bytes.len() == MEM_SIZE,
            self@.stack.len() <= STACK_SIZE,
    {
        self.stack.lemma_wf();
    }

    /// Fresh memory: every byte zero, the call stack empty.
    pub fn new() -> (r: Self)
        ensures
            r.wf(),
            r@.bytes == Seq::new(MEM_SIZE as nat, |i: int| 0u8),
            r@.stack == Seq::<u16>::empty(),
    {
        let mut memory: Vec<u8> = Vec::new();
        let mut i: usize = 0;
        while i < MEM_SIZE
            invariant
                i <= MEM_SIZE,
                memory@.len() == i,
                forall|j: int| 0 <= j < i ==> memory@[j] == 0u8,
            decreases MEM_SIZE - i,
        {
            memory.push(0);
            i += 1;
        }
        let r = Memory { memory, stack: Stack::new() };
        proof {
            assert(r@.bytes =~= Seq::new(MEM_SIZE as nat, |i: int| 0u8));
        }
        r
    }

    /// Copies the program image into the address space starting at
    /// `EXE_START_ADDR`; everything outside that range is untouched.
    pub fn load_exe(&mut self, exe: &[u8]) -> (r: Option<()>)
        requires
            old(self).wf(),
        ensures
            final(self).wf(),
            exe@.len() <= MEM_SIZE - EXE_START_ADDR ==> r == Some(())
                && final(self)@.bytes == Seq::new(
                    MEM_SIZE as nat,
                    |i: int| if EXE_START_ADDR <= i < EXE_START_ADDR + exe@.len() {
                        exe@[i - EXE_START_ADDR]
                    } else {
                        old(self)@.bytes[i]
                    },
                ),
            exe@.len() > MEM_SIZE - EXE_START_ADDR ==> r == None::<()>
                && final(self)@.bytes == old(self)@.bytes,
            final(self)@.stack == old(self)@.stack,
    {
        if exe.len() > MEM_SIZE - EXE_START_ADDR {
            return None;
        }
        let n = exe.len();
        let mut i: usize = 0;
        while i < n
            invariant
                i <= n,
                n == exe@.len(),
                n <= MEM_SIZE - EXE_START_ADDR,
                self.wf(),
                self@.stack == old(self)@.stack,
                self@.bytes.len() == MEM_SIZE,
                forall|j: int| EXE_START_ADDR <= j < EXE_START_ADDR + i
                    ==> self@.bytes[j] == exe@[j - EXE_START_ADDR],
                forall|j: int| 0 <= j < MEM_SIZE
                    && !(EXE_START_ADDR <= j < EXE_START_ADDR + i)
                    ==> self@.bytes[j] == old(self)@.bytes[j],
            decreases n - i,
        {
            self.memory.set(EXE_START_ADDR + i, exe[i]);
            i += 1;
        }
        proof {
            assert(self@.bytes =~= Seq::new(
                MEM_SIZE as nat,
                |i: int| if EXE_START_ADDR <= i < EXE_START_ADDR + exe@.len() {
                    exe@[i - EXE_START_ADDR]
                } else {
                    old(self)@.bytes[i]
                },
            ));
        }
        Some(())
    }

    /// Copies the font sprite table into the reserved low region
    /// starting at `ROM_START_ADDR`; everything past it is untouched.
    pub fn load_sprites(&mut self, sprites: &[u8]) -> (r: Option<()>)
        requires
            old(self).wf(),
        ensures
            final(self).wf(),
            sprites@.len() <= EXE_START_ADDR ==> r == Some(())
                && final(self)@.bytes == Seq::new(
                    MEM_SIZE as nat,
                    |i: int| if ROM_START_ADDR <= i < ROM_START_ADDR + sprites@.len() {
                        sprites@[i - ROM_START_ADDR]
                    } else {
                        old(self)@.bytes[i]
                    },
                ),
            sprites@.len() > EXE_START_ADDR ==> r == None::<()>
                && final(self)@.bytes == old(self)@.bytes,
            final(self)@.stack == old(self)@.stack,
    {
        if sprites.len() > EXE_START_ADDR {
            return None;
        }
        let n = sprites.len();
        let mut i: usize = 0;
        while i < n
            invariant
                i <= n,
                n == sprites@.len(),
                n <= EXE_START_ADDR,
                self.wf(),
                self@.stack == old(self)@.stack,
                self@.bytes.len() == MEM_SIZE,
                forall|j: int| ROM_START_ADDR <= j < ROM_START_ADDR + i
                    ==> self@.bytes[j] == sprites@[j - ROM_START_ADDR],
                forall|j: int| 0 <= j < MEM_SIZE
                    && !(ROM_START_ADDR <= j < ROM_START_ADDR + i)
                    ==> self@.bytes[j] == old(self)@.bytes[j],
            decreases n - i,
        {
            self.memory.set(ROM_START_ADDR + i, sprites[i]);
            i += 1;
        }
        proof {
            assert(self@.bytes =~= Seq::new(
                MEM_SIZE as nat,
                |i: int| if ROM_START_ADDR <= i < ROM_START_ADDR + sprites@.len() {
                    sprites@[i - ROM_START_ADDR]
                } else {
                    old(self)@.bytes[i]
                },
            ));
        }
        Some(())
    }

    /// Finishes the builder chain: hands out an independent copy of the
    /// loaded memory.
    pub fn build(&self) -> (r: Self)
        requires
            self.wf(),
        ensures
            r.wf(),
            r@ == self@,
    {
        let mut memory: Vec<u8> = Vec::new();
        let n = self.memory.len();
        let mut i: usize = 0;
        while i < n
            invariant
                i <= n,
                n == self.memory@.len(),
                memory@.len() == i,
                forall|j: int| 0 <= j < i ==> memory@[j] == self.memory@[j],
            decreases n - i,
        {
            memory.push(self.memory[i]);
            i += 1;
        }
        let r = Memory { memory, stack: self.stack.duplicate() };
        proof {
            assert(r@.bytes =~= self@.bytes);
        }
        r
    }

    /// The big-endian instruction word at `addr`; fails if and only if
    /// the pair of bytes does not fit in the address space.
    pub fn get_instruction(&self, addr: u16) -> (r: Option<u16>)
        requires
            self.wf(),
        ensures
            addr + 1 < MEM_SIZE ==> r == Some(be16(self@.bytes[addr as int], self@.bytes[addr as int + 1])),
            addr + 1 >= MEM_SIZE ==> r == None::<u16>,
    {
        if addr as usize >= MEM_SIZE - 1 {
            return None;
        }
        let high_byte: u16 = self.memory[addr as usize] as u16;
        let low_byte: u16 = self.memory[addr as usize + 1] as u16;
        Some(high_byte * 0x100 + low_byte)
    }

    /// Where the built-in glyph for hex digit `s_num` starts; fails if
    /// and only if `s_num` is not a hex digit.
    pub fn get_font_sprite_addr(&self, s_num: u8) -> (r: Option<u16>)
        ensures
            s_num < FONT_GLYPHS ==> r == Some((SPRITE_SIZE * s_num) as u16),
            s_num >= FONT_GLYPHS ==> r == None::<u16>,
    {
        if s_num as usize >= FONT_GLYPHS {
            return None;
        }
        Some((ROM_START_ADDR + SPRITE_SIZE * (s_num as usize)) as u16)
    }

    /// The five bytes of the built-in glyph for hex digit `s_num`;
    /// fails if and only if `s_num` is not a hex digit.
    pub fn get_font_sprite(&self, s_num: u8) -> (r: Option<&[u8]>)
        requires
            self.wf(),
        ensures
            s_num < FONT_GLYPHS ==> r is Some
                && r->0@ == self@.bytes.subrange(
                    SPRITE_SIZE * s_num,
                    SPRITE_SIZE * s_num + SPRITE_SIZE,
                ),
            s_num >= FONT_GLYPHS ==> r == None::<&[u8]>,
    {
        if s_num as usize >= FONT_GLYPHS {
            return None;
        }
        let start = ROM_START_ADDR + SPRITE_SIZE * (s_num as usize);
        let end = start + SPRITE_SIZE;
        Some(vstd::slice::slice_subrange(self.memory.as_slice(), start, end))
    }

    /// The `n` consecutive sprite bytes starting at `addr`; fails if
    /// and only if the range leaves the address space.
    pub fn get_sprites(&self, addr: u16, n: u8) -> (r: Option<&[u8]>)
        requires
            self.wf(),
        ensures
            addr + n <= MEM_SIZE ==> r is Some
                && r->0@ == self@.bytes.subrange(addr as int, addr as int + n),
            addr + n > MEM_SIZE ==> r == None::<&[u8]>,
    {
        let start = addr as usize;
        if start > MEM_SIZE || n as usize > MEM_SIZE - start {
            return None;
        }
        let end = start + n as usize;
        Some(vstd::slice::slice_subrange(self.memory.as_slice(), start, end))
    }

    /// Writes one byte; fails if and only if `addr` is out of bounds,
    /// and then changes nothing.
    pub fn set_u8(&mut self, addr: u16, val: u8) -> (r: Option<()>)
        requires
            old(self).wf(),
        ensures
            final(self).wf(),
            final(self)@.stack == old(self)@.stack,
            addr < MEM_SIZE ==> r == Some(())
                && final(self)@.bytes == old(self)@.bytes.update(addr as int, val),
            addr >= MEM_SIZE ==> r == None::<()> && final(self)@.bytes == old(self)@.bytes,
    {
        if addr as usize >= MEM_SIZE {
            return None;
        }
        self.memory.set(addr as usize, val);
        Some(())
    }

    /// Reads one byte; fails if and only if `addr` is out of bounds.
    pub fn get_u8(&self, addr: u16) -> (r: Option<u8>)
        requires
            self.wf(),
        ensures
            addr < MEM_SIZE ==> r == Some(self@.bytes[addr as int]),
            addr >= MEM_SIZE ==> r == None::<u8>,
    {
        if addr as usize >= MEM_SIZE {
            return None;
        }
        Some(self.memory[addr as usize])
    }

    /// Pushes a return address on the call stack; fails if and only if
    /// the stack is full.
    pub fn push(&mut self, val: u16) -> (r: Option<()>)
        requires
            old(self).wf(),
        ensures
            final(self).wf(),
            final(self)@.bytes == old(self)@.bytes,
            old(self)@.stack.len() < STACK_SIZE ==> r == Some(())
                && final(self)@.stack == old(self)@.stack.push(val),
            old(self)@.stack.len() == STACK_SIZE ==> r == None::<()>
                && final(self)@.stack == old(self)@.stack,
    {
        self.stack.push(val)
    }

    /// Pops the most recent return address; fails if and only if the
    /// stack is empty.
    pub fn pop(&mut self) -> (r: Option<u16>)
        requires
            old(self).wf(),
        ensures
            final(self).wf(),
            final(self)@.bytes == old(self)@.bytes,
            old(self)@.stack.len() > 0 ==> r == Some(old(self)@.stack.last())
                && final(self)@.stack == old(self)@.stack.drop_last(),
            old(self)@.stack.len() == 0 ==> r == None::<u16>
                && final(self)@.stack == old(self)@.stack,
    {
        self.stack.pop()
    }
}

} // verus!
