//! Ghost model of the target machine.
//!
//! The target virtual machine has a single instruction, here called
//! copy-jump: read three big-endian 24-bit addresses `source`, `target`,
//! `jump` laid out consecutively at the current execution address, copy the
//! byte at `source` to `target`, and continue at `jump`.  The spec functions
//! in this module describe 24-bit big-endian encoding and one execution step
//! of that machine over a memory image modelled as a `Seq<u8>`.  The builder
//! never executes anything; these definitions only give its contracts a
//! precise meaning, and the lemmas here prove that the emitted byte patterns
//! behave as intended once such a machine runs them.

use vstd::prelude::*;

verus! {

/// Bits 16..24 of a non-negative value, the first byte of its big-endian
/// 24-bit encoding.
pub open spec fn byte2(v: int) -> u8 {
    ((v / 0x10000) % 0x100) as u8
}

/// Bits 8..16 of a non-negative value, the middle byte of its big-endian
/// 24-bit encoding.
pub open spec fn byte1(v: int) -> u8 {
    ((v / 0x100) % 0x100) as u8
}

/// Bits 0..8 of a non-negative value, the last byte of its big-endian
/// 24-bit encoding.
pub open spec fn byte0(v: int) -> u8 {
    (v % 0x100) as u8
}

/// The 24-bit big-endian value stored at address `a` of memory `m`.
pub open spec fn read_be24(m: Seq<u8>, a: int) -> int {
    m[a] * 0x10000 + m[a + 1] * 0x100 + m[a + 2]
}

/// Memory `m` with the big-endian 24-bit encoding of `v` stored at `a`.
pub open spec fn store_be24(m: Seq<u8>, a: int, v: int) -> Seq<u8> {
    m.update(a, byte2(v)).update(a + 1, byte1(v)).update(a + 2, byte0(v))
}

/// Memory `m` holds at `a` the 9-byte copy-jump instruction with source
/// `s`, target `t` and jump address `j`.
pub open spec fn has_instr(m: Seq<u8>, a: int, s: int, t: int, j: int) -> bool {
    &&& read_be24(m, a) == s
    &&& read_be24(m, a + 3) == t
    &&& read_be24(m, a + 6) == j
}

/// The memory after the machine executes one copy-jump at address `pc`.
pub open spec fn step_mem(m: Seq<u8>, pc: int) -> Seq<u8> {
    m.update(read_be24(m, pc + 3), m[read_be24(m, pc)])
}

/// The execution address after the machine executes one copy-jump at `pc`.
pub open spec fn step_pc(m: Seq<u8>, pc: int) -> int {
    read_be24(m, pc + 6)
}

/// An identity table is installed at `t`: the byte at offset `i` holds `i`.
pub open spec fn id_table_at(m: Seq<u8>, t: int) -> bool {
    forall|i: int| 0 <= i < 256 ==> #[trigger] m[t + i] == i as u8
}

/// An increment table is installed at `t`: the byte at offset `i` holds
/// `(i + 1) % 256`.
pub open spec fn inc_table_at(m: Seq<u8>, t: int) -> bool {
    forall|i: int| 0 <= i < 256 ==> #[trigger] m[t + i] == ((i + 1) % 256) as u8
}

/// Reducing a value to its low 24 bits leaves each of the three bytes of
/// the big-endian 24-bit encoding unchanged.
pub proof fn lemma_bytes_mod24(v: int)
    requires
        0 <= v,
    ensures
        byte2(v % 0x1000000) == byte2(v),
        byte1(v % 0x1000000) == byte1(v),
        byte0(v % 0x1000000) == byte0(v),
{
    assert((v % 0x1000000) / 0x10000 % 0x100 == v / 0x10000 % 0x100) by (nonlinear_arith)
        requires
            0 <= v,
    ;
    assert((v % 0x1000000) / 0x100 % 0x100 == v / 0x100 % 0x100) by (nonlinear_arith)
        requires
            0 <= v,
    ;
    assert(v % 0x1000000 % 0x100 == v % 0x100) by (nonlinear_arith)
        requires
            0 <= v,
    ;
}

/// Storing a 24-bit value and reading it back yields the value unchanged:
/// the big-endian three-byte encoding is lossless below 2^24.
pub proof fn lemma_store_read_be24(m: Seq<u8>, a: int, v: int)
    requires
        0 <= a,
        a + 3 <= m.len(),
        0 <= v < 0x1000000,
    ensures
        read_be24(store_be24(m, a, v), a) == v,
{
    lemma_be24_recombine(v);
}

/// The three bytes of the big-endian encoding recombine to the encoded
/// value, for every value below 2^24.
pub proof fn lemma_be24_recombine(v: int)
    requires
        0 <= v < 0x1000000,
    ensures
        byte2(v) * 0x10000 + byte1(v) * 0x100 + byte0(v) == v,
{
    assert(((v / 0x10000) % 0x100) * 0x10000 + ((v / 0x100) % 0x100) * 0x100 + (v % 0x100) == v)
        by (nonlinear_arith)
        requires
            0 <= v < 0x1000000,
    ;
}

/// The two bytes of a big-endian 16-bit encoding recombine to the encoded
/// value, for every value below 2^16.
pub proof fn lemma_be16_recombine(v: int)
    requires
        0 <= v < 0x10000,
    ensures
        byte1(v) * 0x100 + byte0(v) == v,
{
    assert(((v / 0x100) % 0x100) * 0x100 + (v % 0x100) == v) by (nonlinear_arith)
        requires
            0 <= v < 0x10000,
    ;
}

/// Storing a 16-bit value big-endian and reading its two bytes back yields
/// the value unchanged.
pub proof fn lemma_store_read_be16(m: Seq<u8>, a: int, v: int)
    requires
        0 <= a,
        a + 2 <= m.len(),
        0 <= v < 0x10000,
    ensures
        ({
            let m2 = m.update(a, byte1(v)).update(a + 1, byte0(v));
            m2[a] * 0x100 + m2[a + 1] == v
        }),
{
    lemma_be16_recombine(v);
}

/// Any three bytes that recombine to a 24-bit value are that value's
/// big-endian encoding: the decomposition is unique.
pub proof fn lemma_be24_unique(b2: u8, b1: u8, b0: u8, v: int)
    requires
        b2 * 0x10000 + b1 * 0x100 + b0 == v,
    ensures
        b2 == byte2(v),
        b1 == byte1(v),
        b0 == byte0(v),
{
    assert(b2 == (v / 0x10000) % 0x100 && b1 == (v / 0x100) % 0x100 && b0 == v % 0x100)
        by (nonlinear_arith)
        requires
            0 <= b2 < 0x100,
            0 <= b1 < 0x100,
            0 <= b0 < 0x100,
            b2 * 0x10000 + b1 * 0x100 + b0 == v,
    ;
}

/// Storing one byte and reading it back at the same address yields the byte
/// unchanged.
pub proof fn lemma_store_read_u8(m: Seq<u8>, a: int, v: u8)
    requires
        0 <= a < m.len(),
    ensures
        m.update(a, v)[a] == v,
{
}

/// Executing an emitted immediate load leaves the loaded value in the
/// destination byte: with the identity table intact at `t`, the copy-jump
/// `(t + v, dst, j)` writes exactly `v` to `dst`.
pub proof fn lemma_load_immediate_executes(m: Seq<u8>, pc: int, t: int, v: u8, dst: int, j: int)
    requires
        id_table_at(m, t),
        0 <= t,
        t + 256 <= m.len(),
        has_instr(m, pc, t + v, dst, j),
        0 <= dst < m.len(),
    ensures
        step_mem(m, pc) == m.update(dst, v),
        step_mem(m, pc)[dst] == v,
        step_pc(m, pc) == j,
{
    assert(m[t + v] == v);
}

/// A write at an address outside a 24-bit field leaves the field's value
/// unchanged.
pub proof fn lemma_read_be24_update_other(m: Seq<u8>, a: int, i: int, v: u8)
    requires
        0 <= a,
        a + 3 <= m.len(),
        0 <= i < m.len(),
        !(a <= i < a + 3),
    ensures
        read_be24(m.update(i, v), a) == read_be24(m, a),
{
}

/// A write at an address outside the identity table leaves the table
/// intact.
pub proof fn lemma_id_table_update_other(m: Seq<u8>, t: int, i: int, v: u8)
    requires
        id_table_at(m, t),
        0 <= t,
        t + 256 <= m.len(),
        0 <= i < m.len(),
        !(t <= i < t + 256),
    ensures
        id_table_at(m.update(i, v), t),
{
    let m1 = m.update(i, v);
    assert forall|k: int| 0 <= k < 256 implies #[trigger] m1[t + k] == k as u8 by {
        assert(m1[t + k] == m[t + k]);
    }
}

/// Executing three emitted immediate loads of the bytes `b2`, `b1`, `b0`
/// into `d`, `d + 1`, `d + 2`, in order, leaves exactly those bytes there
/// and execution right after the block — provided the destination bytes
/// overlap neither the block itself nor the identity table.
pub proof fn lemma_load_bytes_executes(
    m: Seq<u8>,
    pc: int,
    t: int,
    b2: u8,
    b1: u8,
    b0: u8,
    d: int,
    j3: int,
)
    requires
        id_table_at(m, t),
        0 <= t,
        t + 256 <= m.len(),
        0 <= pc,
        pc + 27 <= m.len(),
        0 <= d,
        d + 3 <= m.len(),
        d + 3 <= pc || pc + 27 <= d,
        d + 3 <= t || t + 256 <= d,
        has_instr(m, pc, t + b2, d, pc + 9),
        has_instr(m, pc + 9, t + b1, d + 1, pc + 18),
        has_instr(m, pc + 18, t + b0, d + 2, j3),
    ensures
        step_pc(m, pc) == pc + 9,
        step_pc(step_mem(m, pc), pc + 9) == pc + 18,
        step_pc(step_mem(step_mem(m, pc), pc + 9), pc + 18) == j3,
        step_mem(step_mem(step_mem(m, pc), pc + 9), pc + 18)
            == m.update(d, b2).update(d + 1, b1).update(d + 2, b0),
{
    assert(m[t + b2] == b2);
    let m1 = step_mem(m, pc);
    assert(m1 == m.update(d, b2));
    lemma_id_table_update_other(m, t, d, b2);
    lemma_read_be24_update_other(m, pc + 9, d, b2);
    lemma_read_be24_update_other(m, pc + 12, d, b2);
    lemma_read_be24_update_other(m, pc + 15, d, b2);
    assert(has_instr(m1, pc + 9, t + b1, d + 1, pc + 18));
    assert(m1[t + b1] == b1);
    let m2 = step_mem(m1, pc + 9);
    assert(m2 == m1.update(d + 1, b1));
    lemma_id_table_update_other(m1, t, d + 1, b1);
    lemma_read_be24_update_other(m1, pc + 18, d + 1, b1);
    lemma_read_be24_update_other(m1, pc + 21, d + 1, b1);
    lemma_read_be24_update_other(m1, pc + 24, d + 1, b1);
    assert(has_instr(m2, pc + 18, t + b0, d + 2, j3));
    assert(m2[t + b0] == b0);
    let m3 = step_mem(m2, pc + 18);
    assert(m3 == m2.update(d + 2, b0));
}

/// Executing the three loads of an emitted 24-bit immediate load, in order,
/// leaves the three big-endian bytes of the value in `d`, `d + 1`, `d + 2`,
/// and execution right after the block — provided the destination bytes
/// overlap neither the block itself nor the identity table.
pub proof fn lemma_load_immediate24_executes(m: Seq<u8>, pc: int, t: int, w: int, d: int)
    requires
        id_table_at(m, t),
        0 <= t,
        t + 256 <= m.len(),
        m.len() <= 0x1000000,
        0 <= w < 0x1000000,
        0 <= pc,
        pc + 27 <= m.len(),
        0 <= d,
        d + 3 <= m.len(),
        d + 3 <= pc || pc + 27 <= d,
        d + 3 <= t || t + 256 <= d,
        has_instr(m, pc, t + byte2(w), d, (pc + 9) % 0x1000000),
        has_instr(m, pc + 9, t + byte1(w), d + 1, (pc + 18) % 0x1000000),
        has_instr(m, pc + 18, t + byte0(w), d + 2, (pc + 27) % 0x1000000),
    ensures
        step_pc(m, pc) == pc + 9,
        step_pc(step_mem(m, pc), pc + 9) == pc + 18,
        step_pc(step_mem(step_mem(m, pc), pc + 9), pc + 18) == (pc + 27) % 0x1000000,
        step_mem(step_mem(step_mem(m, pc), pc + 9), pc + 18)
            == m.update(d, byte2(w)).update(d + 1, byte1(w)).update(d + 2, byte0(w)),
{
    assert((pc + 9) % 0x1000000 == pc + 9);
    assert((pc + 18) % 0x1000000 == pc + 18);
    lemma_load_bytes_executes(m, pc, t, byte2(w), byte1(w), byte0(w), d, (pc + 27) % 0x1000000);
}

/// Executing the two copy-jumps of an emitted in-place increment replaces
/// the byte at `a` with its successor mod 256, whatever value `x` it held:
/// the first instruction copies `x` into the low source byte of the second,
/// which then reads the increment-table entry `t + x` — provided the cell
/// and the table lie outside the emitted block and each other.
pub proof fn lemma_increment_executes(m: Seq<u8>, pc: int, t: int, a: int)
    requires
        inc_table_at(m, t),
        0 <= t,
        t + 256 <= m.len(),
        t % 256 == 0,
        m.len() <= 0x1000000,
        0 <= pc,
        pc + 18 <= m.len(),
        0 <= a < m.len(),
        !(pc <= a < pc + 18),
        a + 1 <= t || t + 256 <= a,
        pc + 18 <= t || t + 256 <= pc,
        has_instr(m, pc, a, pc + 11, pc + 9),
        has_instr(m, pc + 9, t, a, pc + 18),
    ensures
        step_pc(m, pc) == pc + 9,
        step_pc(step_mem(m, pc), pc + 9) == pc + 18,
        step_mem(step_mem(m, pc), pc + 9)
            == m.update(pc + 11, m[a]).update(a, ((m[a] + 1) % 256) as u8),
        step_mem(step_mem(m, pc), pc + 9)[a] == ((m[a] + 1) % 256) as u8,
{
    let x = m[a];
    let m1 = step_mem(m, pc);
    assert(m1 == m.update(pc + 11, x));
    // The second instruction's source field encodes `t`, whose low byte is 0
    // by alignment; the first copy overwrote that low byte with `x`, so the
    // field now reads `t + x`.
    assert(m[pc + 9] * 0x10000 + m[pc + 10] * 0x100 + m[pc + 11] == t);
    assert(m[pc + 11] == byte0(t)) by {
        lemma_be24_unique(m[pc + 9], m[pc + 10], m[pc + 11], t);
    }
    assert(byte0(t) == 0);
    assert(read_be24(m1, pc + 9) == t + x);
    assert(read_be24(m1, pc + 12) == a);
    assert(read_be24(m1, pc + 15) == pc + 18);
    assert(inc_table_at(m1, t)) by {
        assert(forall|i: int| 0 <= i < 256 ==> m1[t + i] == #[trigger] m[t + i]);
    }
    assert(m1[t + x] == ((x + 1) % 256) as u8);
    let m2 = step_mem(m1, pc + 9);
    assert(m2 == m1.update(a, ((x + 1) % 256) as u8));
}

/// After the three loads of an emitted frame-synchronization block execute,
/// the execution-pointer register at address 2 holds exactly the address of
/// the first byte after the whole 36-byte block.  The busy-wait that follows
/// then parks the machine until the next frame tick resumes it there.
#[verifier::spinoff_prover]
#[verifier::rlimit(100)]
pub proof fn lemma_sync_resume_address(m: Seq<u8>, pc: int, t: int)
    requires
        id_table_at(m, t),
        5 <= t,
        t + 256 <= m.len(),
        m.len() <= 0x1000000,
        5 <= pc,
        pc + 36 < 0x1000000,
        pc + 36 <= m.len(),
        has_instr(m, pc, t + byte2(pc + 36), 2, (pc + 9) % 0x1000000),
        has_instr(m, pc + 9, t + byte1(pc + 36), 3, (pc + 18) % 0x1000000),
        has_instr(m, pc + 18, t + byte0(pc + 36), 4, (pc + 27) % 0x1000000),
    ensures
        read_be24(step_mem(step_mem(step_mem(m, pc), pc + 9), pc + 18), 2) == pc + 36,
        step_pc(step_mem(step_mem(m, pc), pc + 9), pc + 18) == pc + 27,
{
    let b2 = byte2(pc + 36);
    let b1 = byte1(pc + 36);
    let b0 = byte0(pc + 36);
    assert((pc + 9) % 0x1000000 == pc + 9);
    assert((pc + 18) % 0x1000000 == pc + 18);
    assert((pc + 27) % 0x1000000 == pc + 27);
    lemma_load_bytes_executes(m, pc, t, b2, b1, b0, 2, pc + 27);
    let mf = step_mem(step_mem(step_mem(m, pc), pc + 9), pc + 18);
    assert(mf == m.update(2, b2).update(3, b1).update(4, b0));
    assert(read_be24(mf, 2) == b2 * 0x10000 + b1 * 0x100 + b0) by {
        assert(mf[2] == b2);
        assert(mf[3] == b1);
        assert(mf[4] == b0);
    }
    lemma_be24_recombine(pc + 36);
}

} // verus!
