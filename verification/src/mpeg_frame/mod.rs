//! Frame header, side information and scale factors.

pub use crate::mpeg_frame::header::{
    frame_size_bytes, has_frame_sync, header_bytes, header_fields, lemma_header_roundtrip,
    lemma_header_roundtrip_frame_size, parse_header, parse_header_spec, side_info_bytes, MpegHeader,
};
pub use crate::mpeg_frame::scale_factor::{
    has_short_blocks, parse_scale_factor, scale_factor_bits, scale_factor_long, scale_factor_short,
    SLEN,
};
pub use crate::mpeg_frame::side_info::{channel_at, field, parse_side_info, CHANNEL_INFO_BITS};

pub mod header;
pub mod scale_factor;
pub mod side_info;
pub mod types;
