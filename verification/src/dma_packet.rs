//! Packet decoding: a chain of DMA tags over a bounded byte window.
//!
//! The window is fixed by one of two framing modes: the caller supplies its
//! byte count, or the window begins with its own 32-bit `qword_count` header
//! and spans `qword_count * 16` bytes measured just past that header. After a
//! chain-terminating tag (`Refe`, `Ret`, `End`) the rest of the window is
//! opaque padding, read and discarded. Other tag kinds continue in place:
//! `Next`, `Ref`, `Refs` and `Call` nominally redirect decoding to the
//! address their descriptor carries, which a decoder of one contiguous
//! window cannot follow; they are deliberately treated like `Cnt`.

use vstd::prelude::*;

use crate::bytes::read_u32_le;
use crate::bytes::u32_le;
use crate::dma_tag::decode_tag;
use crate::dma_tag::is_terminal_id;
use crate::dma_tag::spec_decode_tag;
use crate::dma_tag::DmaTag;
use crate::dma_tag::DmaTagId;
use crate::dma_tag::TagView;
use crate::error::DecodeError;
use crate::vif_code::spec_decode_vif_code;
use crate::vif_code::VifCodeView;

verus! {

/// How the byte window of a packet decode is established.
#[derive(Debug, Clone, Copy, PartialEq, Eq, Structural)]
pub enum Framing {
    /// The caller supplies the window's byte count, for a packet embedded in
    /// a larger structure that already knows its extent.
    ExternalSize(u32),
    /// The window begins with its own 32-bit little-endian `qword_count`
    /// header; the window spans `qword_count * 16` bytes measured from the
    /// position just past that header.
    SelfDescribing,
}

/// An ordered sequence of decoded tags, in program order. No tag is
/// reordered, added or removed after decode.
#[derive(Debug, Clone, PartialEq)]
pub struct DmaPacket {
    pub dma_tags: Vec<DmaTag>,
}

impl View for DmaPacket {
    type V = Seq<TagView>;

    open spec fn view(&self) -> Seq<TagView> {
        Seq::new(self.dma_tags@.len(), |i: int| self.dma_tags@[i]@)
    }
}

/// The decode of a tag chain over the window `[pos, end)` of `b`: tags one
/// after another, until the window is exhausted or a chain-terminating tag
/// turns the remaining window bytes into padding, which must be present in
/// the source. A terminal tag whose own extent crosses the window end leaves
/// no well-defined padding region and fails.
pub open spec fn spec_decode_tag_chain(b: Seq<u8>, pos: int, end: int) -> Result<
    (Seq<TagView>, int),
    DecodeError,
>
    decreases end - pos,
{
    if pos >= end {
        Ok((Seq::empty(), pos))
    } else {
        match spec_decode_tag(b, pos) {
            Err(e) => Err(e),
            Ok((t, p2)) => {
                if p2 <= pos {
                    Err(DecodeError::UnexpectedEnd)
                } else if is_terminal_id(t.descriptor.id) {
                    if p2 > end || end > b.len() {
                        Err(DecodeError::UnexpectedEnd)
                    } else {
                        Ok((seq![t], end))
                    }
                } else if p2 >= end {
                    Ok((seq![t], p2))
                } else {
                    match spec_decode_tag_chain(b, p2, end) {
                        Err(e) => Err(e),
                        Ok((rest, fp)) => Ok((seq![t] + rest, fp)),
                    }
                }
            },
        }
    }
}

/// The decode of a packet at byte offset `pos` of `b` under `framing`: the
/// tag chain over the window the framing establishes.
pub open spec fn spec_decode_packet(b: Seq<u8>, pos: int, framing: Framing) -> Result<
    (Seq<TagView>, int),
    DecodeError,
> {
    match framing {
        Framing::ExternalSize(n) => spec_decode_tag_chain(b, pos, pos + n),
        Framing::SelfDescribing => if pos + 4 > b.len() {
            Err(DecodeError::UnexpectedEnd)
        } else {
            spec_decode_tag_chain(b, pos + 4, pos + 4 + 16 * (u32_le(b, pos) as int))
        },
    }
}

/// Decodes the packet at `pos` under `framing`.
///
/// The result is exactly what `spec_decode_packet` says of the source: the
/// decoded tags in program order with the position just past the window, or
/// the owed error, discarding any partial result. Tag kinds that nominally
/// redirect decoding elsewhere (`Next`, `Ref`, `Refs`, `Call`) are not
/// followed: decoding continues in place, as for `Cnt`.
pub fn decode_packet(src: &[u8], pos: usize, framing: Framing) -> (r: Result<
    (DmaPacket, usize),
    DecodeError,
>)
    requires
        pos <= src@.len(),
    ensures
        (match r {
            Ok((pkt, p)) => spec_decode_packet(src@, pos as int, framing) == Ok::<
                (Seq<TagView>, int),
                DecodeError,
            >((pkt@, p as int)),
            Err(e) => spec_decode_packet(src@, pos as int, framing) == Err::<
                (Seq<TagView>, int),
                DecodeError,
            >(e),
        }),
        r matches Ok((pkt, p)) ==> pos <= p <= src@.len(),
{
    let (start, window): (usize, u64) = match framing {
        Framing::ExternalSize(n) => (pos, n as u64),
        Framing::SelfDescribing => {
            if src.len() - pos < 4 {
                return Err(DecodeError::UnexpectedEnd);
            }
            let qc = read_u32_le(src, pos);
            (pos + 4, (qc as u64) * 16)
        },
    };
    let ghost end: int = start + window;
    let mut tags: Vec<DmaTag> = Vec::new();
    let mut p: usize = start;
    let mut remaining: u64 = window;
    proof {
        let cm = Seq::new(tags@.len(), |i: int| tags@[i]@);
        assert(cm =~= Seq::<TagView>::empty());
        if let Ok((rest, fp)) = spec_decode_tag_chain(src@, p as int, end) {
            assert(cm + rest =~= rest);
        }
    }
    while remaining > 0
        invariant
            start <= p <= src@.len(),
            end == start + window,
            remaining <= window,
            remaining > 0 ==> p == end - remaining,
            remaining == 0 ==> p >= end,
            spec_decode_tag_chain(src@, start as int, end) == spec_decode_packet(
                src@,
                pos as int,
                framing,
            ),
            pos <= start,
            (match spec_decode_tag_chain(src@, p as int, end) {
                Ok((rest, fp)) => spec_decode_tag_chain(src@, start as int, end) == Ok::<
                    (Seq<TagView>, int),
                    DecodeError,
                >((Seq::new(tags@.len(), |i: int| tags@[i]@) + rest, fp)),
                Err(e) => spec_decode_tag_chain(src@, start as int, end) == Err::<
                    (Seq<TagView>, int),
                    DecodeError,
                >(e),
            }),
        decreases remaining,
    {
        let (t, p2) = match decode_tag(src, p) {
            Err(e) => {
                proof {
                    assert(spec_decode_tag_chain(src@, p as int, end) == Err::<
                        (Seq<TagView>, int),
                        DecodeError,
                    >(e));
                }
                return Err(e);
            },
            Ok(v) => v,
        };
        let step: u64 = (p2 - p) as u64;
        let terminal: bool = match t.effective_dma_tag.id {
            DmaTagId::Refe | DmaTagId::Ret | DmaTagId::End => true,
            _ => false,
        };
        proof {
            assert(terminal == is_terminal_id(t@.descriptor.id));
        }
        if terminal {
            if step > remaining {
                // the terminal tag's own extent crosses the window end:
                // there is no well-defined padding region
                return Err(DecodeError::UnexpectedEnd);
            }
            let pad: u64 = remaining - step;
            if pad > (src.len() - p2) as u64 {
                // the padding region runs past the source
                return Err(DecodeError::UnexpectedEnd);
            }
            let ghost old_tags = tags@;
            let ghost old_p = p as int;
            tags.push(t);
            p = p2 + (pad as usize);
            remaining = 0;
            proof {
                let old_cm = Seq::new(old_tags.len(), |i: int| old_tags[i]@);
                let new_cm = Seq::new(tags@.len(), |i: int| tags@[i]@);
                assert(new_cm =~= old_cm + seq![t@]);
                assert(spec_decode_tag_chain(src@, old_p, end) == Ok::<
                    (Seq<TagView>, int),
                    DecodeError,
                >((seq![t@], end)));
                assert(spec_decode_tag_chain(src@, p as int, end) == Ok::<
                    (Seq<TagView>, int),
                    DecodeError,
                >((Seq::<TagView>::empty(), p as int)));
                assert(old_cm + seq![t@] =~= new_cm + Seq::<TagView>::empty());
            }
        } else {
            let ghost old_tags = tags@;
            let ghost old_p = p as int;
            tags.push(t);
            if step >= remaining {
                remaining = 0;
            } else {
                remaining = remaining - step;
            }
            p = p2;
            proof {
                let old_cm = Seq::new(old_tags.len(), |i: int| old_tags[i]@);
                let new_cm = Seq::new(tags@.len(), |i: int| tags@[i]@);
                assert(new_cm =~= old_cm + seq![t@]);
                if p >= end {
                    assert(spec_decode_tag_chain(src@, old_p, end) == Ok::<
                        (Seq<TagView>, int),
                        DecodeError,
                    >((seq![t@], p as int)));
                    assert(spec_decode_tag_chain(src@, p as int, end) == Ok::<
                        (Seq<TagView>, int),
                        DecodeError,
                    >((Seq::<TagView>::empty(), p as int)));
                    assert(old_cm + seq![t@] =~= new_cm + Seq::<TagView>::empty());
                } else {
                    match spec_decode_tag_chain(src@, p as int, end) {
                        Ok((rest, fp)) => {
                            assert(spec_decode_tag_chain(src@, old_p, end) == Ok::<
                                (Seq<TagView>, int),
                                DecodeError,
                            >((seq![t@] + rest, fp)));
                            assert(old_cm + (seq![t@] + rest) =~= new_cm + rest);
                        },
                        Err(e) => {
                            assert(spec_decode_tag_chain(src@, old_p, end) == Err::<
                                (Seq<TagView>, int),
                                DecodeError,
                            >(e));
                        },
                    }
                }
            }
        }
    }
    proof {
        let cm = Seq::new(tags@.len(), |i: int| tags@[i]@);
        assert(spec_decode_tag_chain(src@, p as int, end) == Ok::<
            (Seq<TagView>, int),
            DecodeError,
        >((Seq::<TagView>::empty(), p as int)));
        assert(cm + Seq::<TagView>::empty() =~= cm);
    }
    Ok((DmaPacket { dma_tags: tags }, p))
}

/// Law: a successful chain decode exhausts its window: it ends at the window
/// end (or past it, when the last tag's own extent crosses the end), and a
/// non-empty window yields at least one tag.
pub proof fn lemma_chain_exhausts_window(b: Seq<u8>, pos: int, end: int)
    ensures
        spec_decode_tag_chain(b, pos, end) matches Ok((tags, fp)) ==> fp >= end || fp == pos,
        pos < end ==> (spec_decode_tag_chain(b, pos, end) matches Ok((tags, fp)) ==> fp >= end
            && tags.len() >= 1),
    decreases end - pos,
{
    if pos >= end {
    } else {
        match spec_decode_tag(b, pos) {
            Err(_) => {},
            Ok((t, p2)) => {
                if pos < p2 < end && !is_terminal_id(t.descriptor.id) {
                    lemma_chain_exhausts_window(b, p2, end);
                }
            },
        }
    }
}

/// Law: a source truncated before a fixed-size header fails with
/// `UnexpectedEnd` at every layer that reads one: the 4-byte microcode
/// command header, the 8-byte tag descriptor, and the 4-byte window header
/// of a self-describing packet.
pub proof fn lemma_truncated_header_fails(b: Seq<u8>, pos: int)
    ensures
        pos + 4 > b.len() ==> spec_decode_vif_code(b, pos) == Err::<
            (VifCodeView, int),
            DecodeError,
        >(DecodeError::UnexpectedEnd),
        pos + 8 > b.len() ==> spec_decode_tag(b, pos) == Err::<(TagView, int), DecodeError>(
            DecodeError::UnexpectedEnd,
        ),
        pos + 4 > b.len() ==> spec_decode_packet(b, pos, Framing::SelfDescribing) == Err::<
            (Seq<TagView>, int),
            DecodeError,
        >(DecodeError::UnexpectedEnd),
{
}

} // verus!
