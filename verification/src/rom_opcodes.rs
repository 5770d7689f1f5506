//! The instruction synthesizer.
//!
//! Every macro-operation is expressed as one or more emissions of the single
//! 9-byte copy-jump instruction.  Each method states exactly which
//! instructions it lays down at the cursor (via `has_instr`), how far the
//! cursor advances, and that no other byte of the image changes.  The lemmas
//! in `machine` then connect these byte patterns to their effect when the
//! target machine executes them.

use vstd::prelude::*;

use crate::error::RomError;
use crate::machine::{byte0, byte1, byte2, has_instr, lemma_be24_recombine};
use crate::rom_builder::{RomBuilder, PROGRAM_COUNTER_ADDR, ROM_SIZE};

verus! {

impl RomBuilder {
    /// Move the cursor to `addr` without writing anything.
    pub fn org(&mut self, addr: usize)
        requires
            old(self).wf(),
            addr <= ROM_SIZE,
        ensures
            final(self).wf(),
            final(self).mem() == old(self).mem(),
            final(self).cursor() == addr as int,
            final(self).tables_unchanged(old(self)),
    {
        self.set_current_addr(addr);
    }

    /// Emit one copy-jump instruction: copy the byte at `source` to
    /// `target`, then continue at `jump`.  Nine bytes are written; each
    /// address is reduced to its low 24 bits, which is all the fields can
    /// hold.
    pub fn bbj(&mut self, source: usize, target: usize, jump: usize) -> (r: Result<(), RomError>)
        requires
            old(self).wf(),
        ensures
            final(self).wf(),
            final(self).tables_unchanged(old(self)),
            old(self).cursor() + 9 <= ROM_SIZE ==> {
                &&& r == Ok::<(), RomError>(())
                &&& final(self).cursor() == old(self).cursor() + 9
                &&& has_instr(final(self).mem(), old(self).cursor(), source as int % 0x1000000,
                    target as int % 0x1000000, jump as int % 0x1000000)
                &&& forall|i: int| 0 <= i < ROM_SIZE
                    && !(old(self).cursor() <= i < old(self).cursor() + 9)
                    ==> final(self).mem()[i] == old(self).mem()[i]
            },
            old(self).cursor() + 9 > ROM_SIZE ==> {
                &&& r == Err::<(), RomError>(RomError::OutOfBounds)
                &&& final(self).unchanged(old(self))
            },
    {
        let cur = self.get_current_addr();
        if cur > ROM_SIZE - 9 {
            return Err(RomError::OutOfBounds);
        }
        let _ = self.write_addr(source);
        let _ = self.write_addr(target);
        let _ = self.write_addr(jump);
        proof {
            lemma_be24_recombine(source as int % 0x1000000);
            lemma_be24_recombine(target as int % 0x1000000);
            lemma_be24_recombine(jump as int % 0x1000000);
        }
        Ok(())
    }

    /// Emit a no-op: copy the byte at address 0 onto itself and continue at
    /// the next instruction.  This is inert provided the program gives
    /// address 0 no other meaning.
    pub fn nop(&mut self) -> (r: Result<(), RomError>)
        requires
            old(self).wf(),
        ensures
            final(self).wf(),
            final(self).tables_unchanged(old(self)),
            old(self).cursor() + 9 <= ROM_SIZE ==> {
                &&& r == Ok::<(), RomError>(())
                &&& final(self).cursor() == old(self).cursor() + 9
                &&& has_instr(final(self).mem(), old(self).cursor(), 0, 0,
                    (old(self).cursor() + 9) % 0x1000000)
                &&& forall|i: int| 0 <= i < ROM_SIZE
                    && !(old(self).cursor() <= i < old(self).cursor() + 9)
                    ==> final(self).mem()[i] == old(self).mem()[i]
            },
            old(self).cursor() + 9 > ROM_SIZE ==> {
                &&& r == Err::<(), RomError>(RomError::OutOfBounds)
                &&& final(self).unchanged(old(self))
            },
    {
        let jump = self.get_next_instr_addr();
        self.bbj(0x000000, 0x000000, jump)
    }

    /// Emit a busy-wait: a copy-jump whose jump address is its own start, a
    /// self-loop.  The machine parks here until its once-per-frame reload of
    /// the execution pointer moves it elsewhere; this is the only way to
    /// idle on a machine with no halt instruction.
    pub fn wait(&mut self) -> (r: Result<(), RomError>)
        requires
            old(self).wf(),
        ensures
            final(self).wf(),
            final(self).tables_unchanged(old(self)),
            old(self).cursor() + 9 <= ROM_SIZE ==> {
                &&& r == Ok::<(), RomError>(())
                &&& final(self).cursor() == old(self).cursor() + 9
                &&& has_instr(final(self).mem(), old(self).cursor(), 0, 0, old(self).cursor())
                &&& forall|i: int| 0 <= i < ROM_SIZE
                    && !(old(self).cursor() <= i < old(self).cursor() + 9)
                    ==> final(self).mem()[i] == old(self).mem()[i]
            },
            old(self).cursor() + 9 > ROM_SIZE ==> {
                &&& r == Err::<(), RomError>(RomError::OutOfBounds)
                &&& final(self).unchanged(old(self))
            },
    {
        let jump = self.get_current_addr();
        self.bbj(0x000000, 0x000000, jump)
    }

    /// Emit an unconditional jump to `addr`.
    pub fn jmp(&mut self, addr: usize) -> (r: Result<(), RomError>)
        requires
            old(self).wf(),
        ensures
            final(self).wf(),
            final(self).tables_unchanged(old(self)),
            old(self).cursor() + 9 <= ROM_SIZE ==> {
                &&& r == Ok::<(), RomError>(())
                &&& final(self).cursor() == old(self).cursor() + 9
                &&& has_instr(final(self).mem(), old(self).cursor(), 0, 0, addr as int % 0x1000000)
                &&& forall|i: int| 0 <= i < ROM_SIZE
                    && !(old(self).cursor() <= i < old(self).cursor() + 9)
                    ==> final(self).mem()[i] == old(self).mem()[i]
            },
            old(self).cursor() + 9 > ROM_SIZE ==> {
                &&& r == Err::<(), RomError>(RomError::OutOfBounds)
                &&& final(self).unchanged(old(self))
            },
    {
        self.bbj(0x000000, 0x000000, addr)
    }

    /// Emit a copy of the byte at `source` to `target`, continuing at the
    /// next instruction.
    pub fn cpy(&mut self, source: usize, target: usize) -> (r: Result<(), RomError>)
        requires
            old(self).wf(),
        ensures
            final(self).wf(),
            final(self).tables_unchanged(old(self)),
            old(self).cursor() + 9 <= ROM_SIZE ==> {
                &&& r == Ok::<(), RomError>(())
                &&& final(self).cursor() == old(self).cursor() + 9
                &&& has_instr(final(self).mem(), old(self).cursor(), source as int % 0x1000000,
                    target as int % 0x1000000, (old(self).cursor() + 9) % 0x1000000)
                &&& forall|i: int| 0 <= i < ROM_SIZE
                    && !(old(self).cursor() <= i < old(self).cursor() + 9)
                    ==> final(self).mem()[i] == old(self).mem()[i]
            },
            old(self).cursor() + 9 > ROM_SIZE ==> {
                &&& r == Err::<(), RomError>(RomError::OutOfBounds)
                &&& final(self).unchanged(old(self))
            },
    {
        let jump = self.get_next_instr_addr();
        self.bbj(source, target, jump)
    }

    /// Emit a load of the immediate byte `value` into `target`: a copy whose
    /// source is the identity-table entry holding `value`.  Requires an
    /// installed identity table; rejected with `TableNotInstalled` otherwise.
    pub fn cpyi(&mut self, value: u8, target: usize) -> (r: Result<(), RomError>)
        requires
            old(self).wf(),
        ensures
            final(self).wf(),
            final(self).tables_unchanged(old(self)),
            old(self).id_table() is None ==> r == Err::<(), RomError>(RomError::TableNotInstalled)
                && final(self).unchanged(old(self)),
            old(self).id_table() is Some && old(self).cursor() + 9 <= ROM_SIZE ==> {
                &&& r == Ok::<(), RomError>(())
                &&& final(self).cursor() == old(self).cursor() + 9
                &&& has_instr(final(self).mem(), old(self).cursor(), old(self).id_table()->Some_0 + value,
                    target as int % 0x1000000, (old(self).cursor() + 9) % 0x1000000)
                &&& forall|i: int| 0 <= i < ROM_SIZE
                    && !(old(self).cursor() <= i < old(self).cursor() + 9)
                    ==> final(self).mem()[i] == old(self).mem()[i]
            },
            old(self).id_table() is Some && old(self).cursor() + 9 > ROM_SIZE ==> {
                &&& r == Err::<(), RomError>(RomError::OutOfBounds)
                &&& final(self).unchanged(old(self))
            },
    {
        let id_table_addr = match self.get_id_table_addr() {
            Some(addr) => addr,
            None => {
                return Err(RomError::TableNotInstalled);
            },
        };
        self.cpy(id_table_addr + value as usize, target)
    }

    /// Emit three immediate loads placing the big-endian bytes of the 24-bit
    /// value `value` at `target`, `target + 1` and `target + 2`.  Requires
    /// an installed identity table.
    pub fn cpyi_addr(&mut self, value: usize, target: usize) -> (r: Result<(), RomError>)
        requires
            old(self).wf(),
            target + 2 <= usize::MAX,
        ensures
            final(self).wf(),
            final(self).tables_unchanged(old(self)),
            old(self).id_table() is None ==> r == Err::<(), RomError>(RomError::TableNotInstalled)
                && final(self).unchanged(old(self)),
            old(self).id_table() is Some && old(self).cursor() + 27 <= ROM_SIZE ==> {
                &&& r == Ok::<(), RomError>(())
                &&& final(self).cursor() == old(self).cursor() + 27
                &&& has_instr(final(self).mem(), old(self).cursor(), old(self).id_table()->Some_0 + byte2(value as int),
                    target as int % 0x1000000, (old(self).cursor() + 9) % 0x1000000)
                &&& has_instr(final(self).mem(), old(self).cursor() + 9, old(self).id_table()->Some_0 + byte1(value as int),
                    (target + 1) as int % 0x1000000, (old(self).cursor() + 18) % 0x1000000)
                &&& has_instr(final(self).mem(), old(self).cursor() + 18, old(self).id_table()->Some_0 + byte0(value as int),
                    (target + 2) as int % 0x1000000, (old(self).cursor() + 27) % 0x1000000)
                &&& forall|i: int| 0 <= i < ROM_SIZE
                    && !(old(self).cursor() <= i < old(self).cursor() + 27)
                    ==> final(self).mem()[i] == old(self).mem()[i]
            },
            old(self).id_table() is Some && old(self).cursor() + 27 > ROM_SIZE ==> {
                &&& r == Err::<(), RomError>(RomError::OutOfBounds)
                &&& final(self).unchanged(old(self))
            },
    {
        if self.get_id_table_addr().is_none() {
            return Err(RomError::TableNotInstalled);
        }
        let cur = self.get_current_addr();
        if cur > ROM_SIZE - 27 {
            return Err(RomError::OutOfBounds);
        }
        let _ = self.cpyi((value / 0x10000 % 0x100) as u8, target);
        let _ = self.cpyi((value / 0x100 % 0x100) as u8, target + 1);
        let _ = self.cpyi((value % 0x100) as u8, target + 2);
        Ok(())
    }

    /// Write the bytes of `data` at the cursor, advancing it by one per
    /// byte.  Rejected with `OutOfBounds`, writing nothing, when the data
    /// would not fit below the end of the image.
    pub fn db_arr(&mut self, data: &[u8]) -> (r: Result<(), RomError>)
        requires
            old(self).wf(),
        ensures
            final(self).wf(),
            final(self).tables_unchanged(old(self)),
            old(self).cursor() + data@.len() <= ROM_SIZE ==> {
                &&& r == Ok::<(), RomError>(())
                &&& final(self).cursor() == old(self).cursor() + data@.len()
                &&& forall|j: int| 0 <= j < data@.len()
                    ==> final(self).mem()[old(self).cursor() + j] == data@[j]
                &&& forall|i: int| 0 <= i < ROM_SIZE
                    && !(old(self).cursor() <= i < old(self).cursor() + data@.len())
                    ==> final(self).mem()[i] == old(self).mem()[i]
            },
            old(self).cursor() + data@.len() > ROM_SIZE ==> {
                &&& r == Err::<(), RomError>(RomError::OutOfBounds)
                &&& final(self).unchanged(old(self))
            },
    {
        let cur = self.get_current_addr();
        if data.len() > ROM_SIZE - cur {
            return Err(RomError::OutOfBounds);
        }
        let ghost m0 = self.mem();
        let ghost pre = *self;
        for k in 0..data.len()
            invariant
                self.wf(),
                data@.len() <= ROM_SIZE - pre.cursor(),
                pre.wf(),
                self.cursor() == pre.cursor() + k,
                self.tables_unchanged(&pre),
                self.mem().len() == ROM_SIZE,
                forall|j: int| 0 <= j < k ==> self.mem()[pre.cursor() + j] == data@[j],
                forall|i: int| 0 <= i < ROM_SIZE && !(pre.cursor() <= i < pre.cursor() + k)
                    ==> self.mem()[i] == pre.mem()[i],
        {
            let _ = self.write_u8(data[k]);
        }
        Ok(())
    }

    /// Write one data byte at the cursor, advancing it by 1.
    pub fn db(&mut self, data: u8) -> (r: Result<(), RomError>)
        requires
            old(self).wf(),
        ensures
            final(self).wf(),
            final(self).tables_unchanged(old(self)),
            old(self).cursor() < ROM_SIZE ==> {
                &&& r == Ok::<(), RomError>(())
                &&& final(self).mem() == old(self).mem().update(old(self).cursor(), data)
                &&& final(self).cursor() == old(self).cursor() + 1
            },
            old(self).cursor() >= ROM_SIZE ==> {
                &&& r == Err::<(), RomError>(RomError::OutOfBounds)
                &&& final(self).unchanged(old(self))
            },
    {
        self.write_u8(data)
    }

    /// Emit the two-instruction in-place increment of the byte at `addr`.
    /// The first copy-jump copies the current byte at `addr` into the low
    /// source byte of the second instruction; the second then copies from
    /// the increment table at exactly that offset into `addr`, replacing the
    /// byte with its successor mod 256 when executed.  Requires an installed
    /// increment table.
    pub fn inc(&mut self, addr: usize) -> (r: Result<(), RomError>)
        requires
            old(self).wf(),
        ensures
            final(self).wf(),
            final(self).tables_unchanged(old(self)),
            old(self).inc_table() is None ==> r == Err::<(), RomError>(RomError::TableNotInstalled)
                && final(self).unchanged(old(self)),
            old(self).inc_table() is Some && old(self).cursor() + 18 <= ROM_SIZE ==> {
                &&& r == Ok::<(), RomError>(())
                &&& final(self).cursor() == old(self).cursor() + 18
                &&& has_instr(final(self).mem(), old(self).cursor(), addr as int % 0x1000000,
                    (old(self).cursor() + 11) % 0x1000000, (old(self).cursor() + 9) % 0x1000000)
                &&& has_instr(final(self).mem(), old(self).cursor() + 9,
                    old(self).inc_table()->Some_0, addr as int % 0x1000000, (old(self).cursor() + 18) % 0x1000000)
                &&& forall|i: int| 0 <= i < ROM_SIZE
                    && !(old(self).cursor() <= i < old(self).cursor() + 18)
                    ==> final(self).mem()[i] == old(self).mem()[i]
            },
            old(self).inc_table() is Some && old(self).cursor() + 18 > ROM_SIZE ==> {
                &&& r == Err::<(), RomError>(RomError::OutOfBounds)
                &&& final(self).unchanged(old(self))
            },
    {
        let inc_table_addr = match self.get_inc_table_addr() {
            Some(addr) => addr,
            None => {
                return Err(RomError::TableNotInstalled);
            },
        };
        let cur = self.get_current_addr();
        if cur > ROM_SIZE - 18 {
            return Err(RomError::OutOfBounds);
        }
        let mid = self.get_next_instr_addr();
        let _ = self.cpy(addr, mid + 2);
        let _ = self.cpy(inc_table_addr, addr);
        Ok(())
    }

    /// Emit the 36-byte frame-synchronization block: load the address right
    /// after the block into the execution-pointer register, then busy-wait.
    /// When the machine's next frame tick reloads the execution pointer, the
    /// program resumes immediately after the block, so each `sync` suspends
    /// the program for exactly one display frame.  Requires an installed
    /// identity table.
    pub fn sync(&mut self) -> (r: Result<(), RomError>)
        requires
            old(self).wf(),
        ensures
            final(self).wf(),
            final(self).tables_unchanged(old(self)),
            old(self).id_table() is None ==> r == Err::<(), RomError>(RomError::TableNotInstalled)
                && final(self).unchanged(old(self)),
            old(self).id_table() is Some && old(self).cursor() + 36 <= ROM_SIZE ==> {
                &&& r == Ok::<(), RomError>(())
                &&& final(self).cursor() == old(self).cursor() + 36
                &&& has_instr(final(self).mem(), old(self).cursor(),
                    old(self).id_table()->Some_0 + byte2(old(self).cursor() + 36), PROGRAM_COUNTER_ADDR as int,
                    (old(self).cursor() + 9) % 0x1000000)
                &&& has_instr(final(self).mem(), old(self).cursor() + 9,
                    old(self).id_table()->Some_0 + byte1(old(self).cursor() + 36), PROGRAM_COUNTER_ADDR as int + 1,
                    (old(self).cursor() + 18) % 0x1000000)
                &&& has_instr(final(self).mem(), old(self).cursor() + 18,
                    old(self).id_table()->Some_0 + byte0(old(self).cursor() + 36), PROGRAM_COUNTER_ADDR as int + 2,
                    (old(self).cursor() + 27) % 0x1000000)
                &&& has_instr(final(self).mem(), old(self).cursor() + 27, 0, 0,
                    old(self).cursor() + 27)
                &&& forall|i: int| 0 <= i < ROM_SIZE
                    && !(old(self).cursor() <= i < old(self).cursor() + 36)
                    ==> final(self).mem()[i] == old(self).mem()[i]
            },
            old(self).id_table() is Some && old(self).cursor() + 36 > ROM_SIZE ==> {
                &&& r == Err::<(), RomError>(RomError::OutOfBounds)
                &&& final(self).unchanged(old(self))
            },
    {
        if self.get_id_table_addr().is_none() {
            return Err(RomError::TableNotInstalled);
        }
        let cur = self.get_current_addr();
        if cur > ROM_SIZE - 36 {
            return Err(RomError::OutOfBounds);
        }
        let _ = self.cpyi_addr(cur + 36, PROGRAM_COUNTER_ADDR);
        let _ = self.wait();
        Ok(())
    }
}

} // verus!
