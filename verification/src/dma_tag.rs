//! The 8-byte DMA-tag descriptor and the tag built from it.
//!
//! A descriptor is one 64-bit little-endian word, bit-packed as (bit 0 being
//! the least significant bit): bits [0,16) `qword_count`, bits [16,26)
//! `padding`, bits [26,28) `priority_control`, bits [28,31) `id`, bit 31
//! `irq`, bits [32,64) `address`.

use vstd::prelude::*;

use crate::bytes::read_u64_le;
use crate::bytes::u64_le;
use crate::bytes::u64_le_bytes;
use crate::error::DecodeError;
use crate::vif_code::decode_microcode_command;
use crate::vif_code::spec_decode_vif_seq;
use crate::vif_code::VifCode;
use crate::vif_code::VifCodeView;

verus! {

/// Priority control field of a DMA-tag descriptor (2 bits).
///
/// `Reserved` is a legal decoded value, not an error.
#[derive(Debug, Clone, Copy, PartialEq, Eq, Structural)]
pub enum PriorityControl {
    NoEffect,
    Reserved,
    Disabled,
    Enabled,
}

/// Tag kind of a DMA-tag descriptor (3 bits); every 3-bit pattern is a valid,
/// named kind, so no "unknown id" error exists.
///
/// `Refe`, `Ret` and `End` terminate a chain. `Next`, `Ref`, `Refs` and
/// `Call` nominally redirect decoding to the descriptor's address; this
/// decoder does not follow them and treats them like `Cnt`.
#[derive(Debug, Clone, Copy, PartialEq, Eq, Structural)]
pub enum DmaTagId {
    Refe,
    Cnt,
    Next,
    Ref,
    Refs,
    Call,
    Ret,
    End,
}

/// The 2-bit pattern that encodes `p`.
pub open spec fn priority_control_bits(p: PriorityControl) -> u64 {
    match p {
        PriorityControl::NoEffect => 0,
        PriorityControl::Reserved => 1,
        PriorityControl::Disabled => 2,
        PriorityControl::Enabled => 3,
    }
}

/// The priority control encoded by the 2-bit pattern `v`.
pub open spec fn priority_control_of_bits(v: u64) -> PriorityControl {
    if v == 0 {
        PriorityControl::NoEffect
    } else if v == 1 {
        PriorityControl::Reserved
    } else if v == 2 {
        PriorityControl::Disabled
    } else {
        PriorityControl::Enabled
    }
}

/// The 3-bit pattern that encodes `id`.
pub open spec fn dma_tag_id_bits(id: DmaTagId) -> u64 {
    match id {
        DmaTagId::Refe => 0,
        DmaTagId::Cnt => 1,
        DmaTagId::Next => 2,
        DmaTagId::Ref => 3,
        DmaTagId::Refs => 4,
        DmaTagId::Call => 5,
        DmaTagId::Ret => 6,
        DmaTagId::End => 7,
    }
}

/// The tag kind encoded by the 3-bit pattern `v`.
pub open spec fn dma_tag_id_of_bits(v: u64) -> DmaTagId {
    if v == 0 {
        DmaTagId::Refe
    } else if v == 1 {
        DmaTagId::Cnt
    } else if v == 2 {
        DmaTagId::Next
    } else if v == 3 {
        DmaTagId::Ref
    } else if v == 4 {
        DmaTagId::Refs
    } else if v == 5 {
        DmaTagId::Call
    } else if v == 6 {
        DmaTagId::Ret
    } else {
        DmaTagId::End
    }
}

/// Whether a tag of kind `id` terminates the chain: the remaining window
/// bytes after it are opaque padding.
pub open spec fn is_terminal_id(id: DmaTagId) -> bool {
    id == DmaTagId::Refe || id == DmaTagId::Ret || id == DmaTagId::End
}

/// A decoded 8-byte DMA-tag descriptor.
///
/// `address` is carried opaquely and never dereferenced; `padding` is the
/// 10 unused bits, preserved as decoded and never validated.
#[derive(Debug, Clone, Copy, PartialEq, Eq, Structural)]
pub struct EffectiveDmaTag {
    pub qword_count: u16,
    pub padding: u16,
    pub priority_control: PriorityControl,
    pub id: DmaTagId,
    pub irq: bool,
    pub address: u32,
}

impl EffectiveDmaTag {
    /// `padding` holds a 10-bit field.
    pub open spec fn wf(self) -> bool {
        self.padding < 0x400
    }
}

/// The descriptor whose fields the 64-bit word `w` bit-packs.
pub open spec fn descriptor_of_word(w: u64) -> EffectiveDmaTag {
    EffectiveDmaTag {
        qword_count: (w & 0xFFFF) as u16,
        padding: ((w >> 16) & 0x3FF) as u16,
        priority_control: priority_control_of_bits((w >> 26) & 0x3),
        id: dma_tag_id_of_bits((w >> 28) & 0x7),
        irq: ((w >> 31) & 0x1) == 1,
        address: (w >> 32) as u32,
    }
}

/// The 64-bit word that bit-packs the fields of `t`.
pub open spec fn word_of_descriptor(t: EffectiveDmaTag) -> u64 {
    (t.qword_count as u64) | ((t.padding as u64) << 16) | (priority_control_bits(
        t.priority_control,
    ) << 26) | (dma_tag_id_bits(t.id) << 28) | ((if t.irq {
        1u64
    } else {
        0u64
    }) << 31) | ((t.address as u64) << 32)
}

/// Decodes the 8-byte tag descriptor at `pos`.
///
/// Succeeds if and only if 8 bytes remain; on success the descriptor is the
/// bit-exact decoding of the 64-bit little-endian word at `pos`, and exactly
/// 8 bytes are consumed.
pub fn decode_tag_descriptor(src: &[u8], pos: usize) -> (r: Result<
    (EffectiveDmaTag, usize),
    DecodeError,
>)
    requires
        pos <= src@.len(),
    ensures
        pos + 8 <= src@.len() ==> r == Ok::<(EffectiveDmaTag, usize), DecodeError>(
            (descriptor_of_word(u64_le(src@, pos as int)), (pos + 8) as usize),
        ),
        pos + 8 > src@.len() ==> r == Err::<(EffectiveDmaTag, usize), DecodeError>(
            DecodeError::UnexpectedEnd,
        ),
        r matches Ok((t, p)) ==> t.wf() && p == pos + 8,
{
    if src.len() - pos < 8 {
        return Err(DecodeError::UnexpectedEnd);
    }
    let w = read_u64_le(src, pos);
    let pc_bits = (w >> 26) & 0x3;
    let priority_control = if pc_bits == 0 {
        PriorityControl::NoEffect
    } else if pc_bits == 1 {
        PriorityControl::Reserved
    } else if pc_bits == 2 {
        PriorityControl::Disabled
    } else {
        PriorityControl::Enabled
    };
    let id_bits = (w >> 28) & 0x7;
    let id = if id_bits == 0 {
        DmaTagId::Refe
    } else if id_bits == 1 {
        DmaTagId::Cnt
    } else if id_bits == 2 {
        DmaTagId::Next
    } else if id_bits == 3 {
        DmaTagId::Ref
    } else if id_bits == 4 {
        DmaTagId::Refs
    } else if id_bits == 5 {
        DmaTagId::Call
    } else if id_bits == 6 {
        DmaTagId::Ret
    } else {
        DmaTagId::End
    };
    let t = EffectiveDmaTag {
        qword_count: (w & 0xFFFF) as u16,
        padding: ((w >> 16) & 0x3FF) as u16,
        priority_control,
        id,
        irq: ((w >> 31) & 0x1) == 1,
        address: (w >> 32) as u32,
    };
    assert((w >> 16) & 0x3FF < 0x400) by (bit_vector);
    Ok((t, pos + 8))
}

/// Re-encodes a decoded descriptor into its 8 little-endian bytes.
pub fn encode_tag_descriptor(t: &EffectiveDmaTag) -> (r: Vec<u8>)
    requires
        t.wf(),
    ensures
        r@ == u64_le_bytes(word_of_descriptor(*t)),
        r@.len() == 8,
{
    let pc_bits: u64 = match t.priority_control {
        PriorityControl::NoEffect => 0,
        PriorityControl::Reserved => 1,
        PriorityControl::Disabled => 2,
        PriorityControl::Enabled => 3,
    };
    let id_bits: u64 = match t.id {
        DmaTagId::Refe => 0,
        DmaTagId::Cnt => 1,
        DmaTagId::Next => 2,
        DmaTagId::Ref => 3,
        DmaTagId::Refs => 4,
        DmaTagId::Call => 5,
        DmaTagId::Ret => 6,
        DmaTagId::End => 7,
    };
    let irq_bit: u64 = if t.irq {
        1
    } else {
        0
    };
    let w: u64 = (t.qword_count as u64) | ((t.padding as u64) << 16) | (pc_bits << 26) | (id_bits
        << 28) | (irq_bit << 31) | ((t.address as u64) << 32);
    let mut out: Vec<u8> = Vec::new();
    out.push((w & 0xFF) as u8);
    out.push(((w >> 8) & 0xFF) as u8);
    out.push(((w >> 16) & 0xFF) as u8);
    out.push(((w >> 24) & 0xFF) as u8);
    out.push(((w >> 32) & 0xFF) as u8);
    out.push(((w >> 40) & 0xFF) as u8);
    out.push(((w >> 48) & 0xFF) as u8);
    out.push(((w >> 56) & 0xFF) as u8);
    assert(out@ =~= u64_le_bytes(w));
    out
}

/// Law: decoding any 8-byte descriptor and re-encoding the decoded fields
/// reproduces the input bytes bit for bit.
pub proof fn lemma_tag_descriptor_round_trip(b: Seq<u8>)
    requires
        b.len() == 8,
    ensures
        u64_le_bytes(word_of_descriptor(descriptor_of_word(u64_le(b, 0)))) == b,
{
    let w = u64_le(b, 0);
    let t = descriptor_of_word(w);
    let pb = (w >> 26) & 0x3;
    let ib = (w >> 28) & 0x7;
    let vb = (w >> 31) & 0x1;
    assert(pb < 4 && ib < 8 && vb < 2) by (bit_vector)
        requires
            pb == (w >> 26) & 0x3,
            ib == (w >> 28) & 0x7,
            vb == (w >> 31) & 0x1,
    ;
    assert(priority_control_bits(t.priority_control) == pb);
    assert(dma_tag_id_bits(t.id) == ib);
    assert((if t.irq {
        1u64
    } else {
        0u64
    }) == vb);
    assert(((w & 0xFFFF) as u16 as u64) | ((((w >> 16) & 0x3FF) as u16 as u64) << 16) | (pb << 26)
        | (ib << 28) | (vb << 31) | (((w >> 32) as u32 as u64) << 32) == w) by (bit_vector)
        requires
            pb == (w >> 26) & 0x3,
            ib == (w >> 28) & 0x7,
            vb == (w >> 31) & 0x1,
    ;
    assert(word_of_descriptor(t) == w);
    let b0 = b[0];
    let b1 = b[1];
    let b2 = b[2];
    let b3 = b[3];
    let b4 = b[4];
    let b5 = b[5];
    let b6 = b[6];
    let b7 = b[7];
    assert((w & 0xFF) as u8 == b0 && ((w >> 8) & 0xFF) as u8 == b1 && ((w >> 16) & 0xFF) as u8
        == b2 && ((w >> 24) & 0xFF) as u8 == b3 && ((w >> 32) & 0xFF) as u8 == b4 && ((w >> 40)
        & 0xFF) as u8 == b5 && ((w >> 48) & 0xFF) as u8 == b6 && ((w >> 56) & 0xFF) as u8 == b7)
        by (bit_vector)
        requires
            w == (b0 as u64) | ((b1 as u64) << 8) | ((b2 as u64) << 16) | ((b3 as u64) << 24) | ((
            b4 as u64) << 32) | ((b5 as u64) << 40) | ((b6 as u64) << 48) | ((b7 as u64) << 56),
    ;
    assert(u64_le_bytes(word_of_descriptor(descriptor_of_word(u64_le(b, 0)))) =~= b);
}

/// Law: re-decoding the word that encodes a well-formed descriptor yields
/// that descriptor again, field for field.
pub proof fn lemma_descriptor_word_round_trip(t: EffectiveDmaTag)
    requires
        t.wf(),
    ensures
        descriptor_of_word(word_of_descriptor(t)) == t,
{
    let w = word_of_descriptor(t);
    let qc = t.qword_count as u64;
    let pad = t.padding as u64;
    let pcb = priority_control_bits(t.priority_control);
    let idb = dma_tag_id_bits(t.id);
    let irqb: u64 = if t.irq {
        1
    } else {
        0
    };
    let addr = t.address as u64;
    assert(w & 0xFFFF == qc && (w >> 16) & 0x3FF == pad && (w >> 26) & 0x3 == pcb && (w >> 28)
        & 0x7 == idb && (w >> 31) & 0x1 == irqb && (w >> 32) == addr) by (bit_vector)
        requires
            w == qc | (pad << 16) | (pcb << 26) | (idb << 28) | (irqb << 31) | (addr << 32),
            qc < 0x10000,
            pad < 0x400,
            pcb < 4,
            idb < 8,
            irqb < 2,
            addr < 0x1_0000_0000,
    ;
    assert(priority_control_of_bits(pcb) == t.priority_control);
    assert(dma_tag_id_of_bits(idb) == t.id);
}

/// The mathematical model of a decoded tag: its descriptor and the models of
/// its embedded microcode commands.
#[verifier::ext_equal]
pub struct TagView {
    pub descriptor: EffectiveDmaTag,
    pub vif_codes: Seq<VifCodeView>,
}

/// One decoded DMA tag: its descriptor and the microcode commands embedded in
/// the `qword_count * 16` bytes that follow the descriptor.
#[derive(Debug, Clone, PartialEq)]
pub struct DmaTag {
    pub effective_dma_tag: EffectiveDmaTag,
    pub vif_codes: Vec<VifCode>,
}

impl View for DmaTag {
    type V = TagView;

    open spec fn view(&self) -> TagView {
        TagView {
            descriptor: self.effective_dma_tag,
            vif_codes: Seq::new(self.vif_codes@.len(), |i: int| self.vif_codes@[i]@),
        }
    }
}

/// The decode of the one tag at byte offset `pos` of `b`: the 8-byte
/// descriptor, then microcode commands over exactly the following
/// `qword_count * 16` bytes.
pub open spec fn spec_decode_tag(b: Seq<u8>, pos: int) -> Result<(TagView, int), DecodeError> {
    if pos + 8 > b.len() {
        Err(DecodeError::UnexpectedEnd)
    } else {
        let d = descriptor_of_word(u64_le(b, pos));
        let end = pos + 8 + 16 * (d.qword_count as int);
        match spec_decode_vif_seq(b, pos + 8, end) {
            Err(e) => Err(e),
            Ok((cs, fp)) => Ok((TagView { descriptor: d, vif_codes: cs }, fp)),
        }
    }
}

/// Decodes the one tag at `pos`: its descriptor, then its embedded microcode
/// commands up to the region boundary the descriptor's `qword_count` fixes.
///
/// The result is exactly what `spec_decode_tag` says of the source. On
/// success the tag has consumed exactly `8 + qword_count * 16` bytes.
pub fn decode_tag(src: &[u8], pos: usize) -> (r: Result<(DmaTag, usize), DecodeError>)
    requires
        pos <= src@.len(),
    ensures
        (match r {
            Ok((t, p)) => spec_decode_tag(src@, pos as int) == Ok::<(TagView, int), DecodeError>(
                (t@, p as int),
            ),
            Err(e) => spec_decode_tag(src@, pos as int) == Err::<(TagView, int), DecodeError>(e),
        }),
        r matches Ok((t, p)) ==> (t.effective_dma_tag.wf() && p == pos + 8 + 16 * (
        t.effective_dma_tag.qword_count as int) && p <= src@.len()),
{
    let (desc, dp) = match decode_tag_descriptor(src, pos) {
        Err(e) => { return Err(e) },
        Ok(v) => v,
    };
    let region: usize = 16 * (desc.qword_count as usize);
    let ghost end: int = pos + 8 + region;
    let mut codes: Vec<VifCode> = Vec::new();
    let mut p: usize = dp;
    let mut consumed: usize = 0;
    proof {
        let cm = Seq::new(codes@.len(), |i: int| codes@[i]@);
        assert(cm =~= Seq::<VifCodeView>::empty());
        if let Ok((rest, fp)) = spec_decode_vif_seq(src@, p as int, end) {
            assert(cm + rest =~= rest);
        }
    }
    while consumed < region
        invariant
            pos + 8 <= src@.len(),
            desc == descriptor_of_word(u64_le(src@, pos as int)),
            region == 16 * (desc.qword_count as int),
            end == pos + 8 + region,
            consumed <= region,
            p == pos + 8 + consumed,
            p <= src@.len(),
            (match spec_decode_vif_seq(src@, p as int, end) {
                Ok((rest, fp)) => spec_decode_vif_seq(src@, pos + 8, end) == Ok::<
                    (Seq<VifCodeView>, int),
                    DecodeError,
                >((Seq::new(codes@.len(), |i: int| codes@[i]@) + rest, fp)),
                Err(e) => spec_decode_vif_seq(src@, pos + 8, end) == Err::<
                    (Seq<VifCodeView>, int),
                    DecodeError,
                >(e),
            }),
        decreases region - consumed,
    {
        let (c, p2) = match decode_microcode_command(src, p) {
            Err(e) => {
                proof {
                    assert(spec_decode_vif_seq(src@, p as int, end) == Err::<
                        (Seq<VifCodeView>, int),
                        DecodeError,
                    >(e));
                }
                return Err(e);
            },
            Ok(v) => v,
        };
        let step = p2 - p;
        if step > region - consumed {
            // the command's own extent crosses the region boundary: a
            // malformed region, not a silent truncation
            proof {
                assert(spec_decode_vif_seq(src@, p as int, end) == Err::<
                    (Seq<VifCodeView>, int),
                    DecodeError,
                >(DecodeError::UnexpectedEnd));
            }
            return Err(DecodeError::UnexpectedEnd);
        }
        let ghost old_codes = codes@;
        let ghost old_p = p as int;
        codes.push(c);
        consumed = consumed + step;
        p = p2;
        proof {
            let old_cm = Seq::new(old_codes.len(), |i: int| old_codes[i]@);
            let new_cm = Seq::new(codes@.len(), |i: int| codes@[i]@);
            assert(new_cm =~= old_cm + seq![c@]);
            match spec_decode_vif_seq(src@, p as int, end) {
                Ok((rest, fp)) => {
                    assert(spec_decode_vif_seq(src@, old_p, end) == Ok::<
                        (Seq<VifCodeView>, int),
                        DecodeError,
                    >((seq![c@] + rest, fp)));
                    assert(old_cm + (seq![c@] + rest) =~= new_cm + rest);
                },
                Err(e) => {
                    assert(spec_decode_vif_seq(src@, old_p, end) == Err::<
                        (Seq<VifCodeView>, int),
                        DecodeError,
                    >(e));
                },
            }
        }
    }
    proof {
        let cm = Seq::new(codes@.len(), |i: int| codes@[i]@);
        assert(spec_decode_vif_seq(src@, p as int, end) == Ok::<
            (Seq<VifCodeView>, int),
            DecodeError,
        >((Seq::<VifCodeView>::empty(), p as int)));
        assert(cm + Seq::<VifCodeView>::empty() =~= cm);
    }
    let tag = DmaTag { effective_dma_tag: desc, vif_codes: codes };
    Ok((tag, p))
}

} // verus!
