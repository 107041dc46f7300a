//! Microcode (VIF) commands: variable-length instructions embedded after a
//! DMA-tag descriptor.
//!
//! Each command starts with a 4-byte little-endian header `immediate: u16`,
//! `num: u8`, `cmd: u8`. The opcode byte `cmd` selects the variant and the
//! payload rule; for most payload-carrying commands the effective count is
//! `num` when it is non-zero and 256 otherwise.

use vstd::prelude::*;

use crate::bytes::read_u16_le;
use crate::bytes::read_u32_le;
use crate::bytes::read_u16_vec_le;
use crate::bytes::read_u32_vec_le;
use crate::bytes::read_u8_vec;
use crate::bytes::u16_le;
use crate::bytes::u16_seq_le;
use crate::bytes::u32_le;
use crate::bytes::u32_seq_le;
use crate::error::DecodeError;

verus! {

/// A decoded microcode command, immutable once decoded. Payload-carrying
/// variants own their sequence of fixed-width units.
#[allow(non_camel_case_types)]
#[derive(Debug, Clone, PartialEq)]
pub enum VifCode {
    Nop,
    Stcycl { cl: u8, wl: u8 },
    Stmod { mode: u8 },
    Flush,
    Mscnt,
    Strow { r0: u32, r1: u32, r2: u32, r3: u32 },
    Mpg { address: u32, num: usize, data: Vec<u8> },
    Unpack_S_32 {
        address: u16,
        zero_extension: bool,
        add_tops: bool,
        num: usize,
        data: Vec<u32>,
    },
    Unpack_V2_16 {
        address: u16,
        zero_extension: bool,
        add_tops: bool,
        num: usize,
        data: Vec<u16>,
    },
    Unpack_V4_32 {
        address: u16,
        zero_extension: bool,
        add_tops: bool,
        num: usize,
        data: Vec<u32>,
    },
    Unpack_V4_16 {
        address: u16,
        zero_extension: bool,
        add_tops: bool,
        num: usize,
        data: Vec<u16>,
    },
    Unpack_V4_8 {
        address: u16,
        zero_extension: bool,
        add_tops: bool,
        num: usize,
        data: Vec<u8>,
    },
}

/// The mathematical model of a decoded microcode command: payloads are
/// sequences instead of vectors.
#[allow(non_camel_case_types)]
#[verifier::ext_equal]
pub enum VifCodeView {
    Nop,
    Stcycl { cl: u8, wl: u8 },
    Stmod { mode: u8 },
    Flush,
    Mscnt,
    Strow { r0: u32, r1: u32, r2: u32, r3: u32 },
    Mpg { address: u32, num: usize, data: Seq<u8> },
    Unpack_S_32 {
        address: u16,
        zero_extension: bool,
        add_tops: bool,
        num: usize,
        data: Seq<u32>,
    },
    Unpack_V2_16 {
        address: u16,
        zero_extension: bool,
        add_tops: bool,
        num: usize,
        data: Seq<u16>,
    },
    Unpack_V4_32 {
        address: u16,
        zero_extension: bool,
        add_tops: bool,
        num: usize,
        data: Seq<u32>,
    },
    Unpack_V4_16 {
        address: u16,
        zero_extension: bool,
        add_tops: bool,
        num: usize,
        data: Seq<u16>,
    },
    Unpack_V4_8 {
        address: u16,
        zero_extension: bool,
        add_tops: bool,
        num: usize,
        data: Seq<u8>,
    },
}

impl View for VifCode {
    type V = VifCodeView;

    open spec fn view(&self) -> VifCodeView {
        match self {
            VifCode::Nop => VifCodeView::Nop,
            VifCode::Stcycl { cl, wl } => VifCodeView::Stcycl { cl: *cl, wl: *wl },
            VifCode::Stmod { mode } => VifCodeView::Stmod { mode: *mode },
            VifCode::Flush => VifCodeView::Flush,
            VifCode::Mscnt => VifCodeView::Mscnt,
            VifCode::Strow { r0, r1, r2, r3 } => VifCodeView::Strow {
                r0: *r0,
                r1: *r1,
                r2: *r2,
                r3: *r3,
            },
            VifCode::Mpg { address, num, data } => VifCodeView::Mpg {
                address: *address,
                num: *num,
                data: data@,
            },
            VifCode::Unpack_S_32 { address, zero_extension, add_tops, num, data } => VifCodeView::Unpack_S_32 {
                address: *address,
                zero_extension: *zero_extension,
                add_tops: *add_tops,
                num: *num,
                data: data@,
            },
            VifCode::Unpack_V2_16 { address, zero_extension, add_tops, num, data } => VifCodeView::Unpack_V2_16 {
                address: *address,
                zero_extension: *zero_extension,
                add_tops: *add_tops,
                num: *num,
                data: data@,
            },
            VifCode::Unpack_V4_32 { address, zero_extension, add_tops, num, data } => VifCodeView::Unpack_V4_32 {
                address: *address,
                zero_extension: *zero_extension,
                add_tops: *add_tops,
                num: *num,
                data: data@,
            },
            VifCode::Unpack_V4_16 { address, zero_extension, add_tops, num, data } => VifCodeView::Unpack_V4_16 {
                address: *address,
                zero_extension: *zero_extension,
                add_tops: *add_tops,
                num: *num,
                data: data@,
            },
            VifCode::Unpack_V4_8 { address, zero_extension, add_tops, num, data } => VifCodeView::Unpack_V4_8 {
                address: *address,
                zero_extension: *zero_extension,
                add_tops: *add_tops,
                num: *num,
                data: data@,
            },
        }
    }
}

/// The decode of the one microcode command at byte offset `pos` of `b`:
/// either the decoded command with the offset just past it, or the error the
/// decoder owes on this input.
pub open spec fn spec_decode_vif_code(b: Seq<u8>, pos: int) -> Result<
    (VifCodeView, int),
    DecodeError,
> {
    if pos + 4 > b.len() {
        Err(DecodeError::UnexpectedEnd)
    } else {
        let imm = u16_le(b, pos);
        let num = b[pos + 2];
        let cmd = b[pos + 3];
        let hp = pos + 4;
        let ne: int = if num != 0 {
            num as int
        } else {
            256
        };
        if cmd == 0x00 {
            Ok((VifCodeView::Nop, hp))
        } else if cmd == 0x01 {
            Ok(
                (
                    VifCodeView::Stcycl { cl: (imm & 0xFF) as u8, wl: (imm >> 8) as u8 },
                    hp,
                ),
            )
        } else if cmd == 0x05 {
            Ok((VifCodeView::Stmod { mode: (imm & 0x3) as u8 }, hp))
        } else if cmd == 0x11 {
            Ok((VifCodeView::Flush, hp))
        } else if cmd == 0x17 {
            Ok((VifCodeView::Mscnt, hp))
        } else if cmd == 0x30 {
            if hp + 16 <= b.len() {
                Ok(
                    (
                        VifCodeView::Strow {
                            r0: u32_le(b, hp),
                            r1: u32_le(b, hp + 4),
                            r2: u32_le(b, hp + 8),
                            r3: u32_le(b, hp + 12),
                        },
                        hp + 16,
                    ),
                )
            } else {
                Err(DecodeError::UnexpectedEnd)
            }
        } else if cmd == 0x4A {
            let n: int = if num != 0 {
                8 * num
            } else {
                2048
            };
            if hp + n <= b.len() {
                Ok(
                    (
                        VifCodeView::Mpg {
                            address: (8 * imm) as u32,
                            num: n as usize,
                            data: b.subrange(hp, hp + n),
                        },
                        hp + n,
                    ),
                )
            } else {
                Err(DecodeError::UnexpectedEnd)
            }
        } else if cmd == 0x60 {
            if hp + 4 * ne <= b.len() {
                Ok(
                    (
                        VifCodeView::Unpack_S_32 {
                            address: (imm & 0x3FF) as u16,
                            zero_extension: (imm & 0x4000) != 0,
                            add_tops: (imm & 0x8000) != 0,
                            num: ne as usize,
                            data: u32_seq_le(b, hp, ne),
                        },
                        hp + 4 * ne,
                    ),
                )
            } else {
                Err(DecodeError::UnexpectedEnd)
            }
        } else if cmd == 0x65 {
            if hp + 4 * ne <= b.len() {
                Ok(
                    (
                        VifCodeView::Unpack_V2_16 {
                            address: (imm & 0x3FF) as u16,
                            zero_extension: (imm & 0x4000) != 0,
                            add_tops: (imm & 0x8000) != 0,
                            num: ne as usize,
                            data: u16_seq_le(b, hp, 2 * ne),
                        },
                        hp + 4 * ne,
                    ),
                )
            } else {
                Err(DecodeError::UnexpectedEnd)
            }
        } else if cmd == 0x6C {
            if hp + 16 * ne <= b.len() {
                Ok(
                    (
                        VifCodeView::Unpack_V4_32 {
                            address: (imm & 0x3FF) as u16,
                            zero_extension: (imm & 0x4000) != 0,
                            add_tops: (imm & 0x8000) != 0,
                            num: ne as usize,
                            data: u32_seq_le(b, hp, 4 * ne),
                        },
                        hp + 16 * ne,
                    ),
                )
            } else {
                Err(DecodeError::UnexpectedEnd)
            }
        } else if cmd == 0x6D {
            if hp + 8 * ne <= b.len() {
                Ok(
                    (
                        VifCodeView::Unpack_V4_16 {
                            address: (imm & 0x3FF) as u16,
                            zero_extension: (imm & 0x4000) != 0,
                            add_tops: (imm & 0x8000) != 0,
                            num: ne as usize,
                            data: u16_seq_le(b, hp, 4 * ne),
                        },
                        hp + 8 * ne,
                    ),
                )
            } else {
                Err(DecodeError::UnexpectedEnd)
            }
        } else if cmd == 0x6E {
            if hp + 4 * ne <= b.len() {
                Ok(
                    (
                        VifCodeView::Unpack_V4_8 {
                            address: (imm & 0x3FF) as u16,
                            zero_extension: (imm & 0x4000) != 0,
                            add_tops: (imm & 0x8000) != 0,
                            num: ne as usize,
                            data: b.subrange(hp, hp + 4 * ne),
                        },
                        hp + 4 * ne,
                    ),
                )
            } else {
                Err(DecodeError::UnexpectedEnd)
            }
        } else {
            Err(DecodeError::UnknownOpcode(cmd))
        }
    }
}

/// The decode of microcode commands from `pos` up to the region boundary
/// `end`: one command after another, with no padding between them. A command
/// whose own extent crosses `end` is a malformed region, not a silent
/// truncation.
pub open spec fn spec_decode_vif_seq(b: Seq<u8>, pos: int, end: int) -> Result<
    (Seq<VifCodeView>, int),
    DecodeError,
>
    decreases end - pos,
{
    if pos >= end {
        Ok((Seq::empty(), pos))
    } else {
        match spec_decode_vif_code(b, pos) {
            Err(e) => Err(e),
            Ok((c, p2)) => {
                if p2 > end || p2 <= pos {
                    Err(DecodeError::UnexpectedEnd)
                } else {
                    match spec_decode_vif_seq(b, p2, end) {
                        Err(e) => Err(e),
                        Ok((rest, fp)) => Ok((seq![c] + rest, fp)),
                    }
                }
            },
        }
    }
}

/// Law: a successful decode of a microcode region consumes exactly the
/// region, from `pos` to its boundary `end`, with nothing left over.
pub proof fn lemma_vif_seq_consumes_region(b: Seq<u8>, pos: int, end: int)
    requires
        pos <= end,
    ensures
        spec_decode_vif_seq(b, pos, end) matches Ok((cs, fp)) ==> fp == end,
    decreases end - pos,
{
    if pos >= end {
    } else {
        match spec_decode_vif_code(b, pos) {
            Err(_) => {},
            Ok((c, p2)) => {
                if pos < p2 <= end {
                    lemma_vif_seq_consumes_region(b, p2, end);
                }
            },
        }
    }
}

/// Law: a successful microcode-command decode consumes at least its 4-byte
/// header and never reads past the source.
pub proof fn lemma_vif_code_within_source(b: Seq<u8>, pos: int)
    ensures
        spec_decode_vif_code(b, pos) matches Ok((c, p2)) ==> pos + 4 <= p2 <= b.len(),
{
}

/// Decodes the one microcode command at `pos`.
///
/// The result is exactly what `spec_decode_vif_code` says of the source: the
/// decoded command and the position just past its payload, or the owed error.
/// Consumes 4 header bytes plus the payload the opcode table computes, and
/// never reads past its own payload.
pub fn decode_microcode_command(src: &[u8], pos: usize) -> (r: Result<
    (VifCode, usize),
    DecodeError,
>)
    requires
        pos <= src@.len(),
    ensures
        (match r {
            Ok((c, p)) => spec_decode_vif_code(src@, pos as int) == Ok::<
                (VifCodeView, int),
                DecodeError,
            >((c@, p as int)),
            Err(e) => spec_decode_vif_code(src@, pos as int) == Err::<
                (VifCodeView, int),
                DecodeError,
            >(e),
        }),
        r matches Ok((c, p)) ==> pos + 4 <= p <= src@.len(),
{
    if src.len() - pos < 4 {
        return Err(DecodeError::UnexpectedEnd);
    }
    let imm = read_u16_le(src, pos);
    let num = src[pos + 2];
    let cmd = src[pos + 3];
    let hp = pos + 4;
    let ne: usize = if num != 0 {
        num as usize
    } else {
        256
    };
    if cmd == 0x00 {
        Ok((VifCode::Nop, hp))
    } else if cmd == 0x01 {
        Ok((VifCode::Stcycl { cl: (imm & 0xFF) as u8, wl: (imm >> 8) as u8 }, hp))
    } else if cmd == 0x05 {
        Ok((VifCode::Stmod { mode: (imm & 0x3) as u8 }, hp))
    } else if cmd == 0x11 {
        Ok((VifCode::Flush, hp))
    } else if cmd == 0x17 {
        Ok((VifCode::Mscnt, hp))
    } else if cmd == 0x30 {
        if src.len() - hp < 16 {
            return Err(DecodeError::UnexpectedEnd);
        }
        let r0 = read_u32_le(src, hp);
        let r1 = read_u32_le(src, hp + 4);
        let r2 = read_u32_le(src, hp + 8);
        let r3 = read_u32_le(src, hp + 12);
        Ok((VifCode::Strow { r0, r1, r2, r3 }, hp + 16))
    } else if cmd == 0x4A {
        let n: usize = if num != 0 {
            8 * (num as usize)
        } else {
            2048
        };
        if src.len() - hp < n {
            return Err(DecodeError::UnexpectedEnd);
        }
        let data = read_u8_vec(src, hp, n);
        Ok((VifCode::Mpg { address: 8 * (imm as u32), num: n, data }, hp + n))
    } else if cmd == 0x60 {
        if src.len() - hp < 4 * ne {
            return Err(DecodeError::UnexpectedEnd);
        }
        let data = read_u32_vec_le(src, hp, ne);
        Ok(
            (
                VifCode::Unpack_S_32 {
                    address: imm & 0x3FF,
                    zero_extension: (imm & 0x4000) != 0,
                    add_tops: (imm & 0x8000) != 0,
                    num: ne,
                    data,
                },
                hp + 4 * ne,
            ),
        )
    } else if cmd == 0x65 {
        if src.len() - hp < 4 * ne {
            return Err(DecodeError::UnexpectedEnd);
        }
        let data = read_u16_vec_le(src, hp, 2 * ne);
        Ok(
            (
                VifCode::Unpack_V2_16 {
                    address: imm & 0x3FF,
                    zero_extension: (imm & 0x4000) != 0,
                    add_tops: (imm & 0x8000) != 0,
                    num: ne,
                    data,
                },
                hp + 4 * ne,
            ),
        )
    } else if cmd == 0x6C {
        if src.len() - hp < 16 * ne {
            return Err(DecodeError::UnexpectedEnd);
        }
        let data = read_u32_vec_le(src, hp, 4 * ne);
        Ok(
            (
                VifCode::Unpack_V4_32 {
                    address: imm & 0x3FF,
                    zero_extension: (imm & 0x4000) != 0,
                    add_tops: (imm & 0x8000) != 0,
                    num: ne,
                    data,
                },
                hp + 16 * ne,
            ),
        )
    } else if cmd == 0x6D {
        if src.len() - hp < 8 * ne {
            return Err(DecodeError::UnexpectedEnd);
        }
        let data = read_u16_vec_le(src, hp, 4 * ne);
        Ok(
            (
                VifCode::Unpack_V4_16 {
                    address: imm & 0x3FF,
                    zero_extension: (imm & 0x4000) != 0,
                    add_tops: (imm & 0x8000) != 0,
                    num: ne,
                    data,
                },
                hp + 8 * ne,
            ),
        )
    } else if cmd == 0x6E {
        if src.len() - hp < 4 * ne {
            return Err(DecodeError::UnexpectedEnd);
        }
        let data = read_u8_vec(src, hp, 4 * ne);
        Ok(
            (
                VifCode::Unpack_V4_8 {
                    address: imm & 0x3FF,
                    zero_extension: (imm & 0x4000) != 0,
                    add_tops: (imm & 0x8000) != 0,
                    num: ne,
                    data,
                },
                hp + 4 * ne,
            ),
        )
    } else {
        Err(DecodeError::UnknownOpcode(cmd))
    }
}

} // verus!
