//! The byte-addressable memory-image builder.
//!
//! A `RomBuilder` owns a fixed 16 MiB zero-initialized memory image, a write
//! cursor, and the recorded addresses of the two lookup tables.  Every write
//! targets the cursor and advances it; a write that would leave the image is
//! rejected with `RomError::OutOfBounds` and changes nothing.

use vstd::prelude::*;

use crate::error::RomError;
use crate::machine::{
    byte0, byte1, byte2, id_table_at, inc_table_at, lemma_bytes_mod24, read_be24, store_be24,
};

verus! {

/// Length of `m` once every trailing zero byte is removed: the position one
/// past the last nonzero byte, or 0 when every byte is zero.
pub open spec fn trimmed_len(m: Seq<u8>) -> int
    decreases m.len(),
{
    if m.len() == 0 {
        0
    } else if m[m.len() - 1] != 0 {
        m.len() as int
    } else {
        trimmed_len(m.drop_last())
    }
}

/// Trimming removes trailing zeros and nothing else: the trimmed length
/// never exceeds the full length, every byte at or past it is zero, and the
/// byte just below it (when there is one) is nonzero.
pub proof fn lemma_trimmed_len_props(m: Seq<u8>)
    ensures
        0 <= trimmed_len(m) <= m.len(),
        forall|i: int| trimmed_len(m) <= i < m.len() ==> m[i] == 0,
        trimmed_len(m) > 0 ==> m[trimmed_len(m) - 1] != 0,
    decreases m.len(),
{
    if m.len() == 0 {
    } else if m[m.len() - 1] != 0 {
    } else {
        lemma_trimmed_len_props(m.drop_last());
        assert(forall|i: int| trimmed_len(m) <= i < m.len() - 1 ==> m.drop_last()[i] == m[i]);
    }
}

/// A memory whose bytes from position `k` on are all zero trims to at most
/// `k` bytes.
pub proof fn lemma_trimmed_len_zero_suffix(m: Seq<u8>, k: int)
    requires
        0 <= k <= m.len(),
        forall|i: int| k <= i < m.len() ==> m[i] == 0,
    ensures
        trimmed_len(m) <= k,
    decreases m.len(),
{
    if m.len() == 0 {
    } else if m.len() == k {
        lemma_trimmed_len_props(m);
    } else {
        assert(m[m.len() - 1] == 0);
        assert(forall|i: int| k <= i < m.len() - 1 ==> m.drop_last()[i] == m[i]);
        lemma_trimmed_len_zero_suffix(m.drop_last(), k);
    }
}

/// Size of the addressable memory image: 16 MiB, one byte per 24-bit address.
pub const ROM_SIZE: usize = 0x1000000;

/// Address of the two input/keyboard flag bytes.
pub const KEYBOARD_REGISTER_ADDR: usize = 0x000000;

/// Address of the 3-byte execution-pointer register, read by the machine
/// once per display frame.
pub const PROGRAM_COUNTER_ADDR: usize = 0x000002;

/// Address of the screen-buffer page register (bits 16..24 of the screen
/// buffer address).
pub const SCREEN_REGISTER_ADDR: usize = 0x000005;

/// Address of the 2-byte audio-buffer page register (bits 8..24 of the
/// audio buffer address).
pub const AUDIO_REGISTER_ADDR: usize = 0x000006;

pub struct RomBuilder {
    rom: Vec<u8>,
    program_counter: usize,
    id_table_addr: Option<usize>,
    inc_table_addr: Option<usize>,
}

impl RomBuilder {
    /// The memory image.
    pub closed spec fn mem(&self) -> Seq<u8> {
        self.rom@
    }

    /// The write cursor.
    pub closed spec fn cursor(&self) -> int {
        self.program_counter as int
    }

    /// The recorded identity-table address, if one was installed.
    pub closed spec fn id_table(&self) -> Option<int> {
        match self.id_table_addr {
            Some(a) => Some(a as int),
            None => None,
        }
    }

    /// The recorded increment-table address, if one was installed.
    pub closed spec fn inc_table(&self) -> Option<int> {
        match self.inc_table_addr {
            Some(a) => Some(a as int),
            None => None,
        }
    }

    /// A recorded table address is aligned to 256 bytes and its 256-byte
    /// region lies inside the image.
    pub open spec fn table_addr_wf(t: Option<int>) -> bool {
        match t {
            Some(a) => 0 <= a && a + 256 <= ROM_SIZE && a % 256 == 0,
            None => true,
        }
    }

    /// Well-formedness: the image has its fixed size, the cursor is at most
    /// one past its last byte, and recorded table addresses are aligned and
    /// in bounds.
    pub open spec fn wf(&self) -> bool {
        &&& self.mem().len() == ROM_SIZE
        &&& 0 <= self.cursor() <= ROM_SIZE
        &&& Self::table_addr_wf(self.id_table())
        &&& Self::table_addr_wf(self.inc_table())
    }

    /// Both table records are unchanged by an operation.
    pub open spec fn tables_unchanged(&self, other: &Self) -> bool {
        &&& self.id_table() == other.id_table()
        &&& self.inc_table() == other.inc_table()
    }

    /// The whole observable state is unchanged by an operation.
    pub open spec fn unchanged(&self, other: &Self) -> bool {
        &&& self.mem() == other.mem()
        &&& self.cursor() == other.cursor()
        &&& self.tables_unchanged(other)
    }

    /// A fresh builder: zero-filled image, cursor at address 0, no tables.
    pub fn new() -> (r: Self)
        ensures
            r.wf(),
            r.cursor() == 0,
            r.mem().len() == ROM_SIZE,
            forall|i: int| 0 <= i < ROM_SIZE ==> r.mem()[i] == 0u8,
            r.id_table() is None,
            r.inc_table() is None,
    {
        let rom: Vec<u8> = vec![0u8; ROM_SIZE];
        Self { rom, program_counter: 0, id_table_addr: None, inc_table_addr: None }
    }

    /// Move the cursor to `addr`.
    pub fn set_current_addr(&mut self, addr: usize)
        requires
            old(self).wf(),
            addr <= ROM_SIZE,
        ensures
            final(self).wf(),
            final(self).mem() == old(self).mem(),
            final(self).cursor() == addr as int,
            final(self).tables_unchanged(old(self)),
    {
        self.program_counter = addr;
    }

    /// The current cursor address.
    pub fn get_current_addr(&self) -> (r: usize)
        ensures
            r as int == self.cursor(),
    {
        self.program_counter
    }

    /// The address three bytes past the cursor: where the next address
    /// field would end up after writing one 24-bit value.
    pub fn get_next_addr(&self) -> (r: usize)
        requires
            self.wf(),
        ensures
            r as int == self.cursor() + 3,
    {
        self.program_counter + 3
    }

    /// The address nine bytes past the cursor: where the instruction after
    /// the one about to be emitted will start.
    pub fn get_next_instr_addr(&self) -> (r: usize)
        requires
            self.wf(),
        ensures
            r as int == self.cursor() + 9,
    {
        self.program_counter + 9
    }

    /// The byte stored at `addr`.
    pub fn read_u8(&self, addr: usize) -> (r: u8)
        requires
            self.wf(),
            addr < ROM_SIZE,
        ensures
            r == self.mem()[addr as int],
    {
        self.rom[addr]
    }

    /// Write one byte at the cursor and advance the cursor by 1.
    pub fn write_u8(&mut self, value: u8) -> (r: Result<(), RomError>)
        requires
            old(self).wf(),
        ensures
            final(self).wf(),
            final(self).tables_unchanged(old(self)),
            old(self).cursor() < ROM_SIZE ==> {
                &&& r == Ok::<(), RomError>(())
                &&& final(self).mem() == old(self).mem().update(old(self).cursor(), value)
                &&& final(self).cursor() == old(self).cursor() + 1
            },
            old(self).cursor() >= ROM_SIZE ==> {
                &&& r == Err::<(), RomError>(RomError::OutOfBounds)
                &&& final(self).unchanged(old(self))
            },
    {
        if self.program_counter >= ROM_SIZE {
            return Err(RomError::OutOfBounds);
        }
        self.rom[self.program_counter] = value;
        self.program_counter = self.program_counter + 1;
        Ok(())
    }

    /// Write a 16-bit value at the cursor, most significant byte first, and
    /// advance the cursor by 2.
    pub fn write_u16(&mut self, value: u16) -> (r: Result<(), RomError>)
        requires
            old(self).wf(),
        ensures
            final(self).wf(),
            final(self).tables_unchanged(old(self)),
            old(self).cursor() + 2 <= ROM_SIZE ==> {
                &&& r == Ok::<(), RomError>(())
                &&& final(self).mem() == old(self).mem()
                    .update(old(self).cursor(), byte1(value as int))
                    .update(old(self).cursor() + 1, byte0(value as int))
                &&& final(self).cursor() == old(self).cursor() + 2
            },
            old(self).cursor() + 2 > ROM_SIZE ==> {
                &&& r == Err::<(), RomError>(RomError::OutOfBounds)
                &&& final(self).unchanged(old(self))
            },
    {
        if self.program_counter > ROM_SIZE - 2 {
            return Err(RomError::OutOfBounds);
        }
        let addr = self.program_counter;
        self.rom[addr] = (value / 0x100) as u8;
        self.rom[addr + 1] = (value % 0x100) as u8;
        self.program_counter = addr + 2;
        Ok(())
    }

    /// Write a 24-bit value at the cursor, most significant byte first, and
    /// advance the cursor by 3.  Bits 24..32 of the argument are ignored, as
    /// the three written bytes cannot represent them.
    pub fn write_u24(&mut self, value: u32) -> (r: Result<(), RomError>)
        requires
            old(self).wf(),
        ensures
            final(self).wf(),
            final(self).tables_unchanged(old(self)),
            old(self).cursor() + 3 <= ROM_SIZE ==> {
                &&& r == Ok::<(), RomError>(())
                &&& final(self).mem() == store_be24(old(self).mem(), old(self).cursor(), value as int)
                &&& final(self).cursor() == old(self).cursor() + 3
            },
            old(self).cursor() + 3 > ROM_SIZE ==> {
                &&& r == Err::<(), RomError>(RomError::OutOfBounds)
                &&& final(self).unchanged(old(self))
            },
    {
        if self.program_counter > ROM_SIZE - 3 {
            return Err(RomError::OutOfBounds);
        }
        let addr = self.program_counter;
        self.rom[addr] = (value / 0x10000 % 0x100) as u8;
        self.rom[addr + 1] = (value / 0x100 % 0x100) as u8;
        self.rom[addr + 2] = (value % 0x100) as u8;
        self.program_counter = addr + 3;
        Ok(())
    }

    /// Write the low 24 bits of an address at the cursor, most significant
    /// byte first, and advance the cursor by 3.
    pub fn write_addr(&mut self, addr: usize) -> (r: Result<(), RomError>)
        requires
            old(self).wf(),
        ensures
            final(self).wf(),
            final(self).tables_unchanged(old(self)),
            old(self).cursor() + 3 <= ROM_SIZE ==> {
                &&& r == Ok::<(), RomError>(())
                &&& final(self).mem() == store_be24(old(self).mem(), old(self).cursor(),
                    addr as int % 0x1000000)
                &&& final(self).cursor() == old(self).cursor() + 3
            },
            old(self).cursor() + 3 > ROM_SIZE ==> {
                &&& r == Err::<(), RomError>(RomError::OutOfBounds)
                &&& final(self).unchanged(old(self))
            },
    {
        self.write_u24((addr % 0x1000000) as u32)
    }

    /// Write the cursor's own address at the cursor, most significant byte
    /// first, and advance the cursor by 3.
    pub fn write_current_addr(&mut self) -> (r: Result<(), RomError>)
        requires
            old(self).wf(),
        ensures
            final(self).wf(),
            final(self).tables_unchanged(old(self)),
            old(self).cursor() + 3 <= ROM_SIZE ==> {
                &&& r == Ok::<(), RomError>(())
                &&& final(self).mem() == store_be24(old(self).mem(), old(self).cursor(),
                    old(self).cursor())
                &&& final(self).cursor() == old(self).cursor() + 3
            },
            old(self).cursor() + 3 > ROM_SIZE ==> {
                &&& r == Err::<(), RomError>(RomError::OutOfBounds)
                &&& final(self).unchanged(old(self))
            },
    {
        let addr = self.get_current_addr();
        self.write_addr(addr)
    }

    /// Write the address three bytes past the cursor (the end of the 24-bit
    /// field being written), most significant byte first, and advance the
    /// cursor by 3.
    pub fn write_next_addr(&mut self) -> (r: Result<(), RomError>)
        requires
            old(self).wf(),
        ensures
            final(self).wf(),
            final(self).tables_unchanged(old(self)),
            old(self).cursor() + 3 <= ROM_SIZE ==> {
                &&& r == Ok::<(), RomError>(())
                &&& final(self).mem() == store_be24(old(self).mem(), old(self).cursor(),
                    (old(self).cursor() + 3) % 0x1000000)
                &&& final(self).cursor() == old(self).cursor() + 3
            },
            old(self).cursor() + 3 > ROM_SIZE ==> {
                &&& r == Err::<(), RomError>(RomError::OutOfBounds)
                &&& final(self).unchanged(old(self))
            },
    {
        let addr = self.get_next_addr();
        self.write_addr(addr)
    }

    /// The 16-bit big-endian value stored at `addr`.
    pub fn read_u16(&self, addr: usize) -> (r: u16)
        requires
            self.wf(),
            addr + 2 <= ROM_SIZE,
        ensures
            r as int == self.mem()[addr as int] * 0x100 + self.mem()[addr as int + 1],
    {
        (self.rom[addr] as u16) * 0x100 + (self.rom[addr + 1] as u16)
    }

    /// The 24-bit big-endian value stored at `addr`.
    pub fn read_u24(&self, addr: usize) -> (r: u32)
        requires
            self.wf(),
            addr + 3 <= ROM_SIZE,
        ensures
            r as int == read_be24(self.mem(), addr as int),
    {
        (self.rom[addr] as u32) * 0x10000 + (self.rom[addr + 1] as u32) * 0x100
            + (self.rom[addr + 2] as u32)
    }

    /// Install the 256-byte identity table at the cursor: byte `i` of the
    /// table holds the value `i`.  The cursor must be 256-byte aligned and
    /// at most one identity table may be installed per build; on rejection
    /// nothing changes.
    pub fn install_id_table(&mut self) -> (r: Result<(), RomError>)
        requires
            old(self).wf(),
        ensures
            final(self).wf(),
            final(self).inc_table() == old(self).inc_table(),
            old(self).id_table() is Some ==> r == Err::<(), RomError>(RomError::TableAlreadyInstalled)
                && final(self).unchanged(old(self)),
            old(self).id_table() is None && old(self).cursor() % 256 != 0 ==>
                r == Err::<(), RomError>(RomError::TableMisaligned)
                && final(self).unchanged(old(self)),
            old(self).id_table() is None && old(self).cursor() % 256 == 0
                && old(self).cursor() + 256 > ROM_SIZE ==>
                r == Err::<(), RomError>(RomError::OutOfBounds)
                && final(self).unchanged(old(self)),
            old(self).id_table() is None && old(self).cursor() % 256 == 0
                && old(self).cursor() + 256 <= ROM_SIZE ==> {
                &&& r == Ok::<(), RomError>(())
                &&& final(self).id_table() == Some(old(self).cursor())
                &&& final(self).cursor() == old(self).cursor() + 256
                &&& id_table_at(final(self).mem(), old(self).cursor())
                &&& forall|i: int| 0 <= i < ROM_SIZE
                    && !(old(self).cursor() <= i < old(self).cursor() + 256)
                    ==> final(self).mem()[i] == old(self).mem()[i]
            },
    {
        if self.id_table_addr.is_some() {
            return Err(RomError::TableAlreadyInstalled);
        }
        if self.program_counter % 256 != 0 {
            return Err(RomError::TableMisaligned);
        }
        if self.program_counter > ROM_SIZE - 256 {
            return Err(RomError::OutOfBounds);
        }
        let base = self.program_counter;
        let ghost m0 = self.rom@;
        let ghost inc0 = self.inc_table_addr;
        for x in 0..256usize
            invariant
                self.rom@.len() == ROM_SIZE,
                m0.len() == ROM_SIZE,
                base + 256 <= ROM_SIZE,
                self.program_counter == base,
                self.id_table_addr is None,
                self.inc_table_addr == inc0,
                forall|i: int| 0 <= i < x ==> #[trigger] self.rom@[base + i] == i as u8,
                forall|i: int| 0 <= i < ROM_SIZE && !(base <= i < base + x)
                    ==> self.rom@[i] == m0[i],
        {
            self.rom[base + x] = x as u8;
        }
        self.id_table_addr = Some(base);
        self.program_counter = base + 256;
        Ok(())
    }

    /// The address where the identity table was installed, if it was.
    pub fn get_id_table_addr(&self) -> (r: Option<usize>)
        ensures
            r is Some <==> self.id_table() is Some,
            r matches Some(a) ==> self.id_table() == Some(a as int),
    {
        self.id_table_addr
    }

    /// Install the 256-byte increment table at the cursor: byte `i` of the
    /// table holds `(i + 1) % 256`.  The cursor must be 256-byte aligned and
    /// at most one increment table may be installed per build; on rejection
    /// nothing changes.
    pub fn install_inc_table(&mut self) -> (r: Result<(), RomError>)
        requires
            old(self).wf(),
        ensures
            final(self).wf(),
            final(self).id_table() == old(self).id_table(),
            old(self).inc_table() is Some ==> r == Err::<(), RomError>(RomError::TableAlreadyInstalled)
                && final(self).unchanged(old(self)),
            old(self).inc_table() is None && old(self).cursor() % 256 != 0 ==>
                r == Err::<(), RomError>(RomError::TableMisaligned)
                && final(self).unchanged(old(self)),
            old(self).inc_table() is None && old(self).cursor() % 256 == 0
                && old(self).cursor() + 256 > ROM_SIZE ==>
                r == Err::<(), RomError>(RomError::OutOfBounds)
                && final(self).unchanged(old(self)),
            old(self).inc_table() is None && old(self).cursor() % 256 == 0
                && old(self).cursor() + 256 <= ROM_SIZE ==> {
                &&& r == Ok::<(), RomError>(())
                &&& final(self).inc_table() == Some(old(self).cursor())
                &&& final(self).cursor() == old(self).cursor() + 256
                &&& inc_table_at(final(self).mem(), old(self).cursor())
                &&& forall|i: int| 0 <= i < ROM_SIZE
                    && !(old(self).cursor() <= i < old(self).cursor() + 256)
                    ==> final(self).mem()[i] == old(self).mem()[i]
            },
    {
        if self.inc_table_addr.is_some() {
            return Err(RomError::TableAlreadyInstalled);
        }
        if self.program_counter % 256 != 0 {
            return Err(RomError::TableMisaligned);
        }
        if self.program_counter > ROM_SIZE - 256 {
            return Err(RomError::OutOfBounds);
        }
        let base = self.program_counter;
        let ghost m0 = self.rom@;
        let ghost id0 = self.id_table_addr;
        for x in 0..256usize
            invariant
                self.rom@.len() == ROM_SIZE,
                m0.len() == ROM_SIZE,
                base + 256 <= ROM_SIZE,
                self.program_counter == base,
                self.inc_table_addr is None,
                self.id_table_addr == id0,
                forall|i: int| 0 <= i < x ==> #[trigger] self.rom@[base + i] == ((i + 1) % 256) as u8,
                forall|i: int| 0 <= i < ROM_SIZE && !(base <= i < base + x)
                    ==> self.rom@[i] == m0[i],
        {
            self.rom[base + x] = ((x + 1) % 256) as u8;
        }
        self.inc_table_addr = Some(base);
        self.program_counter = base + 256;
        Ok(())
    }

    /// The address where the increment table was installed, if it was.
    pub fn get_inc_table_addr(&self) -> (r: Option<usize>)
        ensures
            r is Some <==> self.inc_table() is Some,
            r matches Some(a) ==> self.inc_table() == Some(a as int),
    {
        self.inc_table_addr
    }

    /// Write the fixed hardware register block at the base of the image:
    /// two input-flag bytes, the 3-byte execution-pointer register, the
    /// screen-buffer page (bits 16..24 of `screen_addr`), and the
    /// audio-buffer page (bits 8..24 of `audio_addr`).  Bits below the page
    /// boundaries of `screen_addr` and `audio_addr` cannot be represented by
    /// the fields and are dropped.  Leaves the cursor one past the block.
    pub fn init_regs(
        &mut self,
        keyb_flags: u16,
        program_addr: usize,
        screen_addr: usize,
        audio_addr: usize,
    )
        requires
            old(self).wf(),
        ensures
            final(self).wf(),
            final(self).tables_unchanged(old(self)),
            final(self).cursor() == 8,
            final(self).mem()[0] == byte1(keyb_flags as int),
            final(self).mem()[1] == byte0(keyb_flags as int),
            final(self).mem()[2] == byte2(program_addr as int),
            final(self).mem()[3] == byte1(program_addr as int),
            final(self).mem()[4] == byte0(program_addr as int),
            final(self).mem()[5] == byte2(screen_addr as int),
            final(self).mem()[6] == byte2(audio_addr as int),
            final(self).mem()[7] == byte1(audio_addr as int),
            forall|i: int| 8 <= i < ROM_SIZE ==> final(self).mem()[i] == old(self).mem()[i],
    {
        proof {
            lemma_bytes_mod24(program_addr as int);
        }
        self.set_current_addr(KEYBOARD_REGISTER_ADDR);
        let _ = self.write_u16(keyb_flags);
        let _ = self.write_addr(program_addr);
        let _ = self.write_u8((screen_addr / 0x10000 % 0x100) as u8);
        let _ = self.write_u8((audio_addr / 0x10000 % 0x100) as u8);
        let _ = self.write_u8((audio_addr / 0x100 % 0x100) as u8);
    }

    /// The image with its trailing zero bytes removed: the serialized form
    /// of the build.  The machine treats memory beyond the loaded file as
    /// zero-filled, so the trimmed image behaves exactly like the full one.
    pub fn to_trimmed_bytes(&self) -> (r: Vec<u8>)
        requires
            self.wf(),
        ensures
            r@ == self.mem().subrange(0, trimmed_len(self.mem())),
            r@.len() == trimmed_len(self.mem()),
    {
        proof {
            lemma_trimmed_len_props(self.rom@);
            assert(self.rom@.subrange(0, self.rom@.len() as int) =~= self.rom@);
        }
        let mut n: usize = self.rom.len();
        while n > 0 && self.rom[n - 1] == 0
            invariant
                self.rom@.len() == ROM_SIZE,
                n <= ROM_SIZE,
                forall|i: int| n <= i < ROM_SIZE ==> self.rom@[i] == 0,
                trimmed_len(self.rom@) == trimmed_len(self.rom@.subrange(0, n as int)),
            decreases n,
        {
            proof {
                assert(self.rom@.subrange(0, n as int).drop_last()
                    =~= self.rom@.subrange(0, n as int - 1));
            }
            n = n - 1;
        }
        proof {
            if n == 0 {
                assert(trimmed_len(self.rom@.subrange(0, 0)) == 0);
            } else {
                assert(self.rom@.subrange(0, n as int)[n as int - 1] == self.rom@[n as int - 1]);
            }
            assert(trimmed_len(self.rom@) == n as int);
        }
        let mut r: Vec<u8> = Vec::with_capacity(n);
        let mut i: usize = 0;
        while i < n
            invariant
                self.rom@.len() == ROM_SIZE,
                n <= ROM_SIZE,
                i <= n,
                r@ == self.rom@.subrange(0, i as int),
            decreases n - i,
        {
            r.push(self.rom[i]);
            proof {
                assert(self.rom@.subrange(0, i as int + 1)
                    =~= self.rom@.subrange(0, i as int).push(self.rom@[i as int]));
            }
            i = i + 1;
        }
        r
    }
}

} // verus!
