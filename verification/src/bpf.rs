//! The BPF architecture: register-file layout and serialization, register-id
//! numbering, breakpoint-kind encoding, and the single-step requirement.
//!
//! The wire format for the bulk register transfer commands writes the ten
//! general-purpose registers as 64-bit words followed by the stack pointer
//! and the program counter at the architecture's pointer width. Note the
//! byte-order asymmetry the upstream debugger defines for this architecture:
//! the general-purpose bank is *written* little-endian but *read back*
//! big-endian, while the special registers use little-endian in both
//! directions. The contracts below state both directions exactly rather than
//! assuming symmetry.

use crate::wire::{u64_from_be, u64_le_bytes, u64_read_be, u64_write_le, RegWord};
use vstd::prelude::*;

verus! {

/// Breakpoint encodings the client may request for BPF.
#[derive(Debug, Clone, Copy, PartialEq, Eq)]
pub enum BpfBreakpointKind {
    /// The single BPF breakpoint kind.
    BpfBpKindBrkpt,
}

impl BpfBreakpointKind {
    /// Maps the small integer sent by the client to a breakpoint kind;
    /// unknown integers map to no value.
    pub fn from_usize(kind: usize) -> (r: Option<BpfBreakpointKind>)
        ensures
            kind == 0 ==> r == Some(BpfBreakpointKind::BpfBpKindBrkpt),
            kind != 0 ==> r is None,
    {
        match kind {
            0 => Some(BpfBreakpointKind::BpfBpKindBrkpt),
            _ => None,
        }
    }
}

/// Whether the protocol layer must emulate single-stepping for an
/// architecture or may delegate it to the target.
#[derive(Debug, Clone, Copy, PartialEq, Eq)]
pub enum SingleStepBehavior {
    /// The client sends single-step requests unconditionally; the target
    /// must handle them.
    Required,
    /// The client uses single-stepping when offered and falls back to a
    /// temporary breakpoint otherwise.
    Optional,
    /// The client never requests single-stepping for this architecture.
    Ignored,
}

/// Marker for the 32-bit BPF architecture variant.
#[derive(Debug, Clone, Copy)]
pub struct Bpf;

/// Marker for the 64-bit BPF architecture variant.
#[derive(Debug, Clone, Copy)]
pub struct Bpf64;

impl Bpf {
    /// No built-in target description XML is supplied for this architecture.
    pub fn target_description_xml() -> (r: Option<&'static str>)
        ensures
            r is None,
    {
        None
    }

    /// BPF targets must implement single-stepping themselves.
    pub fn single_step_gdb_behavior() -> (r: SingleStepBehavior)
        ensures
            r == SingleStepBehavior::Required,
    {
        SingleStepBehavior::Required
    }
}

impl Bpf64 {
    /// No built-in target description XML is supplied for this architecture.
    pub fn target_description_xml() -> (r: Option<&'static str>)
        ensures
            r is None,
    {
        None
    }

    /// BPF targets must implement single-stepping themselves.
    pub fn single_step_gdb_behavior() -> (r: SingleStepBehavior)
        ensures
            r == SingleStepBehavior::Required,
    {
        SingleStepBehavior::Required
    }
}

/// The BPF register file: ten 64-bit general-purpose registers, then the
/// stack pointer and program counter at the variant's pointer width.
#[derive(Debug, Default, Clone, PartialEq, Eq)]
pub struct BpfRegs<U> {
    /// General purpose registers (R0-R9).
    pub r: [u64; 10],
    /// Stack pointer (R10).
    pub sp: U,
    /// Program counter (R11).
    pub pc: U,
}

/// Concatenated little-endian encodings of a general-purpose register bank.
pub open spec fn gprs_le_bytes(r: Seq<u64>) -> Seq<u8>
    decreases r.len(),
{
    if r.len() == 0 {
        Seq::empty()
    } else {
        gprs_le_bytes(r.drop_last()) + u64_le_bytes(r.last())
    }
}

pub proof fn lemma_gprs_le_len(r: Seq<u64>)
    ensures
        gprs_le_bytes(r).len() == 8 * r.len(),
    decreases r.len(),
{
    if r.len() > 0 {
        lemma_gprs_le_len(r.drop_last());
    }
}

/// The encoding of a register bank decomposes into one 8-byte chunk per
/// register.
pub proof fn lemma_gprs_le_chunk(r: Seq<u64>, i: int)
    requires
        0 <= i < r.len(),
    ensures
        gprs_le_bytes(r).subrange(8 * i, 8 * i + 8) == u64_le_bytes(r[i]),
    decreases r.len(),
{
    lemma_gprs_le_len(r.drop_last());
    if i == r.len() - 1 {
        assert(gprs_le_bytes(r).subrange(8 * i, 8 * i + 8) =~= u64_le_bytes(r[i]));
    } else {
        lemma_gprs_le_chunk(r.drop_last(), i);
        assert(gprs_le_bytes(r).subrange(8 * i, 8 * i + 8) =~= gprs_le_bytes(
            r.drop_last(),
        ).subrange(8 * i, 8 * i + 8));
    }
}

/// Byte offset at which general-purpose register `i` starts within the
/// serialized register file.
pub open spec fn gpr_offset(i: int) -> int {
    8 * i
}

/// The general-purpose register the deserializer reads from chunk `i` of a
/// buffer: eight bytes, big-endian.
pub open spec fn gpr_from_bytes(bytes: Seq<u8>, i: int) -> u64 {
    u64_from_be(bytes.subrange(8 * i, 8 * i + 8))
}

impl<U: RegWord> BpfRegs<U> {
    /// Exact length of this register file on the wire.
    pub open spec fn wire_len() -> int {
        80 + 2 * U::size_spec()
    }

    /// The serialized form: general-purpose bank little-endian, then stack
    /// pointer and program counter little-endian at pointer width.
    pub open spec fn ser_spec(self) -> Seq<u8> {
        gprs_le_bytes(self.r@) + self.sp.le_spec() + self.pc.le_spec()
    }

    /// The stack pointer a buffer deserializes to.
    pub open spec fn sp_from_bytes(bytes: Seq<u8>) -> U {
        U::from_le_spec(bytes.subrange(80, 80 + U::size_spec()))
    }

    /// The program counter a buffer deserializes to.
    pub open spec fn pc_from_bytes(bytes: Seq<u8>) -> U {
        U::from_le_spec(bytes.subrange(80 + U::size_spec(), 80 + 2 * U::size_spec()))
    }

    /// Return the value of the program counter.
    pub fn pc(&self) -> (r: U)
        ensures
            r == self.pc,
    {
        self.pc
    }

    /// Serialize the register file into the exact byte stream the bulk
    /// register read command answers with.
    pub fn gdb_serialize(&self) -> (out: Vec<u8>)
        ensures
            out@ == self.ser_spec(),
            out@.len() == Self::wire_len(),
    {
        let mut out: Vec<u8> = Vec::new();
        let mut i: usize = 0;
        while i < 10
            invariant
                i <= 10,
                out@ == gprs_le_bytes(self.r@.take(i as int)),
            decreases 10 - i,
        {
            u64_write_le(self.r[i], &mut out);
            proof {
                assert(self.r@.take(i + 1).drop_last() =~= self.r@.take(i as int));
                assert(self.r@.take(i + 1).last() == self.r@[i as int]);
            }
            i += 1;
        }
        proof {
            assert(self.r@.take(10) =~= self.r@);
        }
        self.sp.write_le(&mut out);
        self.pc.write_le(&mut out);
        proof {
            lemma_gprs_le_len(self.r@);
            self.sp.lemma_le();
            self.pc.lemma_le();
            U::lemma_size();
        }
        out
    }

    /// Deserialize a byte stream produced for the bulk register write
    /// command. A buffer shorter than the register file fails and leaves the
    /// register file unchanged; a longer buffer's trailing bytes are ignored.
    pub fn gdb_deserialize(&mut self, bytes: &[u8]) -> (res: Result<(), ()>)
        ensures
            bytes@.len() < Self::wire_len() ==> res is Err && *final(self) == *old(self),
            bytes@.len() >= Self::wire_len() ==> {
                &&& res is Ok
                &&& final(self).r@ == Seq::new(10, |i: int| gpr_from_bytes(bytes@, i))
                &&& final(self).sp == Self::sp_from_bytes(bytes@)
                &&& final(self).pc == Self::pc_from_bytes(bytes@)
            },
    {
        proof {
            U::lemma_size();
        }
        let ptrsize = U::size();
        if bytes.len() < 80 + 2 * ptrsize {
            return Err(());
        }
        let mut vals: Vec<u64> = Vec::new();
        let mut i: usize = 0;
        while i < 10
            invariant
                i <= 10,
                vals@.len() == i,
                bytes@.len() >= 80,
                forall|j: int| 0 <= j < i ==> vals@[j] == gpr_from_bytes(bytes@, j),
            decreases 10 - i,
        {
            vals.push(u64_read_be(bytes, 8 * i));
            i += 1;
        }
        self.r = [vals[0], vals[1], vals[2], vals[3], vals[4], vals[5], vals[6], vals[7], vals[8],
            vals[9]];
        self.sp = U::read_le(bytes, 80);
        self.pc = U::read_le(bytes, 80 + ptrsize);
        proof {
            assert(self.r@ =~= Seq::new(10, |i: int| gpr_from_bytes(bytes@, i)));
        }
        Ok(())
    }
}

/// Relies on core::marker::PhantomData's Clone impl: `PhantomData` is a
/// fieldless marker with a single value, and its `clone` returns that value.
/// vstd gives it no specification; the derived `Clone` for [`BpfRegId`] calls
/// it.
pub assume_specification<T: core::marker::PointeeSized>[ <core::marker::PhantomData<T> as Clone>::clone ](
    v: &core::marker::PhantomData<T>,
) -> (r: core::marker::PhantomData<T>)
    ensures
        r == *v,
;

/// Identifies a single register for the single-register read and write
/// commands.
#[derive(Debug, Clone, Copy)]
#[non_exhaustive]
pub enum BpfRegId<U> {
    /// General purpose registers (R0-R9).
    Gpr(u8),
    /// Stack Pointer (R10).
    Sp,
    /// Program Counter (R11).
    Pc,
    /// Carries the width type; never constructed.
    _Size(core::marker::PhantomData<U>),
}

/// The register and byte width a wire register index denotes, if any.
pub open spec fn from_raw_id_spec<U: RegWord>(id: usize) -> Option<(BpfRegId<U>, usize)> {
    if id <= 9 {
        Some((BpfRegId::Gpr(id as u8), 8usize))
    } else if id == 10 {
        Some((BpfRegId::Sp, U::size_spec()))
    } else if id == 11 {
        Some((BpfRegId::Pc, U::size_spec()))
    } else {
        None
    }
}

/// Maps a wire register index to the register it denotes and that register's
/// byte width: indices 0 through 9 are the 8-byte general-purpose registers,
/// 10 and 11 the stack pointer and program counter at pointer width, and any
/// other index denotes no register.
pub fn from_raw_id<U: RegWord>(id: usize) -> (r: Option<(BpfRegId<U>, usize)>)
    ensures
        r == from_raw_id_spec::<U>(id),
{
    if id <= 9 {
        Some((BpfRegId::Gpr(id as u8), 8))
    } else if id == 10 {
        Some((BpfRegId::Sp, U::size()))
    } else if id == 11 {
        Some((BpfRegId::Pc, U::size()))
    } else {
        None
    }
}

impl BpfRegId<u32> {
    /// Maps a wire register index for the 32-bit variant.
    pub fn from_raw_id(id: usize) -> (r: Option<(Self, usize)>)
        ensures
            r == from_raw_id_spec::<u32>(id),
    {
        from_raw_id::<u32>(id)
    }
}

impl BpfRegId<u64> {
    /// Maps a wire register index for the 64-bit variant.
    pub fn from_raw_id(id: usize) -> (r: Option<(Self, usize)>)
        ensures
            r == from_raw_id_spec::<u64>(id),
    {
        from_raw_id::<u64>(id)
    }
}

/// Law: the register-id map is total over the architecture's twelve register
/// indices and empty beyond them; every mapped register has a positive byte
/// width, the general-purpose bank has a fixed 8-byte width, so the starting
/// offset of each register in the register file grows strictly with its
/// index.
pub proof fn lemma_reg_id_total<U: RegWord>(id: usize)
    ensures
        id < 12 ==> from_raw_id_spec::<U>(id) is Some,
        id >= 12 ==> from_raw_id_spec::<U>(id) is None,
        id <= 9 ==> from_raw_id_spec::<U>(id) == Some((BpfRegId::<U>::Gpr(id as u8), 8usize)),
        id == 10 || id == 11 ==> from_raw_id_spec::<U>(id)->Some_0.1 == U::size_spec(),
        id < 12 ==> from_raw_id_spec::<U>(id)->Some_0.1 > 0,
        forall|i: int, j: int|
            0 <= i < j < 10 ==> #[trigger] gpr_offset(i) < #[trigger] gpr_offset(j),
{
    U::lemma_size();
}

/// Law: deserializing a serialized register file reproduces it exactly,
/// provided every general-purpose register is invariant under the byte-order
/// asymmetry of this architecture's wire format: the general-purpose bank is
/// written little-endian but read back big-endian, while the stack pointer
/// and program counter round-trip unconditionally. A register file violating
/// that proviso (say `r[0] == 1`) deserializes to the byte-swapped values
/// instead.
pub proof fn lemma_register_roundtrip<U: RegWord>(regs: BpfRegs<U>)
    requires
        forall|i: int|
            0 <= i < 10 ==> u64_from_be(u64_le_bytes(#[trigger] regs.r@[i])) == regs.r@[i],
    ensures
        regs.ser_spec().len() == BpfRegs::<U>::wire_len(),
        Seq::new(10, |i: int| gpr_from_bytes(regs.ser_spec(), i)) == regs.r@,
        BpfRegs::<U>::sp_from_bytes(regs.ser_spec()) == regs.sp,
        BpfRegs::<U>::pc_from_bytes(regs.ser_spec()) == regs.pc,
{
    let bytes = regs.ser_spec();
    U::lemma_size();
    regs.sp.lemma_le();
    regs.pc.lemma_le();
    lemma_gprs_le_len(regs.r@);
    assert forall|i: int| 0 <= i < 10 implies gpr_from_bytes(bytes, i) == regs.r@[i] by {
        lemma_gprs_le_chunk(regs.r@, i);
        assert(bytes.subrange(8 * i, 8 * i + 8) =~= gprs_le_bytes(regs.r@).subrange(
            8 * i,
            8 * i + 8,
        ));
    }
    assert(Seq::new(10, |i: int| gpr_from_bytes(bytes, i)) =~= regs.r@);
    assert(bytes.subrange(80, 80 + U::size_spec()) =~= regs.sp.le_spec());
    assert(bytes.subrange(80 + U::size_spec(), 80 + 2 * U::size_spec()) =~= regs.pc.le_spec());
}

/// Re-encoding the registers read from the first `n` 8-byte chunks of a
/// buffer reproduces those chunks, whenever each chunk is invariant under the
/// bank's byte-order asymmetry.
proof fn lemma_chunks_concat(bytes: Seq<u8>, n: int)
    requires
        0 <= n,
        8 * n <= bytes.len(),
        forall|i: int|
            0 <= i < n ==> u64_le_bytes(u64_from_be(#[trigger] bytes.subrange(8 * i, 8 * i + 8)))
                == bytes.subrange(8 * i, 8 * i + 8),
    ensures
        gprs_le_bytes(Seq::new(n as nat, |i: int| gpr_from_bytes(bytes, i))) == bytes.take(8 * n),
    decreases n,
{
    let r = Seq::new(n as nat, |i: int| gpr_from_bytes(bytes, i));
    if n == 0 {
        assert(gprs_le_bytes(r) =~= bytes.take(0));
    } else {
        lemma_chunks_concat(bytes, n - 1);
        assert(r.drop_last() =~= Seq::new((n - 1) as nat, |i: int| gpr_from_bytes(bytes, i)));
        assert(u64_le_bytes(r.last()) == bytes.subrange(8 * (n - 1), 8 * (n - 1) + 8));
        assert(bytes.take(8 * n) =~= bytes.take(8 * (n - 1)) + bytes.subrange(
            8 * (n - 1),
            8 * (n - 1) + 8,
        ));
    }
}

/// Law: serializing the register file that a buffer of the exact wire length
/// deserializes to reproduces the buffer, provided each 8-byte
/// general-purpose chunk is invariant under the bank's byte-order asymmetry
/// (it is read big-endian but written back little-endian); the stack-pointer
/// and program-counter bytes round-trip unconditionally. A buffer violating
/// the proviso (say one whose first chunk is `01 00 .. 00`) comes back with
/// those chunks reversed. The left-hand side below is exactly
/// `ser_spec` of the register file that `gdb_deserialize` produces from
/// `bytes`.
pub proof fn lemma_buffer_roundtrip<U: RegWord>(bytes: Seq<u8>)
    requires
        bytes.len() == BpfRegs::<U>::wire_len(),
        forall|i: int|
            0 <= i < 10 ==> u64_le_bytes(u64_from_be(#[trigger] bytes.subrange(8 * i, 8 * i + 8)))
                == bytes.subrange(8 * i, 8 * i + 8),
    ensures
        gprs_le_bytes(Seq::new(10, |i: int| gpr_from_bytes(bytes, i))) + BpfRegs::<
            U,
        >::sp_from_bytes(bytes).le_spec() + BpfRegs::<U>::pc_from_bytes(bytes).le_spec() == bytes,
{
    U::lemma_size();
    lemma_chunks_concat(bytes, 10);
    U::lemma_le_of_from_le(bytes.subrange(80, 80 + U::size_spec()));
    U::lemma_le_of_from_le(bytes.subrange(80 + U::size_spec(), 80 + 2 * U::size_spec()));
    assert(bytes.take(80) + bytes.subrange(80, 80 + U::size_spec()) + bytes.subrange(
        80 + U::size_spec(),
        80 + 2 * U::size_spec(),
    ) =~= bytes);
}

} // verus!
