//! Decoder for a graphics co-processor's DMA command stream: chains of 8-byte
//! DMA tags, each optionally followed by embedded microcode commands that
//! program a vector unit.
//!
//! The decode path is the whole scope: tag-descriptor bitfield decoding,
//! tag-chain traversal over a bounded byte window with terminal-tag padding,
//! and microcode-command opcode dispatch with variable-length payloads.
//! Tags whose kind nominally redirects decoding to another address
//! (`Next`, `Ref`, `Refs`, `Call`) are not followed: the decoder works on a
//! single contiguous byte window and carries the address opaquely.

mod bytes;
mod dma_packet;
mod dma_tag;
mod error;
mod vif_code;

pub use bytes::read_u16_le;
pub use bytes::read_u32_le;
pub use bytes::read_u64_le;
pub use bytes::u16_le;
pub use bytes::u16_seq_le;
pub use bytes::u32_le;
pub use bytes::u32_seq_le;
pub use bytes::u64_le;
pub use bytes::u64_le_bytes;
pub use dma_packet::decode_packet;
pub use dma_packet::lemma_chain_exhausts_window;
pub use dma_packet::lemma_truncated_header_fails;
pub use dma_packet::spec_decode_packet;
pub use dma_packet::spec_decode_tag_chain;
pub use dma_packet::DmaPacket;
pub use dma_packet::Framing;
pub use dma_tag::decode_tag;
pub use dma_tag::decode_tag_descriptor;
pub use dma_tag::descriptor_of_word;
pub use dma_tag::dma_tag_id_bits;
pub use dma_tag::dma_tag_id_of_bits;
pub use dma_tag::encode_tag_descriptor;
pub use dma_tag::is_terminal_id;
pub use dma_tag::lemma_descriptor_word_round_trip;
pub use dma_tag::lemma_tag_descriptor_round_trip;
pub use dma_tag::priority_control_bits;
pub use dma_tag::priority_control_of_bits;
pub use dma_tag::spec_decode_tag;
pub use dma_tag::word_of_descriptor;
pub use dma_tag::DmaTag;
pub use dma_tag::DmaTagId;
pub use dma_tag::EffectiveDmaTag;
pub use dma_tag::PriorityControl;
pub use dma_tag::TagView;
pub use error::DecodeError;
pub use vif_code::decode_microcode_command;
pub use vif_code::lemma_vif_code_within_source;
pub use vif_code::lemma_vif_seq_consumes_region;
pub use vif_code::spec_decode_vif_code;
pub use vif_code::spec_decode_vif_seq;
pub use vif_code::VifCode;
pub use vif_code::VifCodeView;
