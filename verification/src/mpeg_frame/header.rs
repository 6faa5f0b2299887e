//! The frame header: its fields, its decoding, and the lengths that follow
//! from it.

use crate::mpeg_frame::types::{
    bitrate_kbps, sample_rate_hz, MpegBitRate, MpegChannelMode, MpegCopyright, MpegLayer,
    MpegModeExtension, MpegOringinal, MpegProtection, MpegSampleRate, MpegVersion,
};
use crate::DecodeError;
use vstd::prelude::*;

verus! {

/// The fields of a frame header.
#[derive(Debug, Clone, Copy, PartialEq, Eq, Structural)]
pub struct MpegHeader {
    pub version: MpegVersion,
    pub layer: MpegLayer,
    pub protection: MpegProtection,
    pub bit_rate: MpegBitRate,
    pub sample_rate: MpegSampleRate,
    pub padding: bool,
    pub channel: MpegChannelMode,
    pub mode_extension: MpegModeExtension,
    pub copyright: MpegCopyright,
    pub original: MpegOringinal,
}

/// The length of a frame in bytes, header included:
/// `144 * 1000 * kbps / hz`, rounded down, plus one byte of padding if any.
pub open spec fn frame_size_bytes(kbps: int, hz: int, padding: bool) -> int {
    144 * kbps * 1000 / hz + if padding {
        1int
    } else {
        0int
    }
}

/// The number of bytes of side information: 17 for one channel, 32 for two.
pub open spec fn side_info_bytes(channel: MpegChannelMode) -> int {
    if channel == MpegChannelMode::SingleChannel {
        17
    } else {
        32
    }
}

impl MpegHeader {
    /// The header that a version, a layer and the raw header fields describe.
    pub open spec fn of_fields(
        version: MpegVersion,
        layer: MpegLayer,
        protection: MpegProtection,
        bitrate_index: u8,
        sample_rate_index: u8,
        padding: bool,
        channel: MpegChannelMode,
        mode_extension: MpegModeExtension,
        copyright: MpegCopyright,
        original: MpegOringinal,
    ) -> Self {
        MpegHeader {
            version,
            layer,
            protection,
            bit_rate: MpegBitRate::from_parts(
                bitrate_index as usize,
                bitrate_kbps(bitrate_index, version, layer),
            ),
            sample_rate: MpegSampleRate::from_parts(
                sample_rate_index as usize,
                sample_rate_hz(sample_rate_index, version),
            ),
            padding,
            channel,
            mode_extension,
            copyright,
            original,
        }
    }

    /// The frame length in bytes; none where the sampling frequency is
    /// reserved, or where the length does not fit `usize`.
    pub open spec fn spec_frame_size(&self) -> Option<usize> {
        let size = frame_size_bytes(
            self.bit_rate.spec_get_rate() as int,
            self.sample_rate.spec_get_rate() as int,
            self.padding,
        );
        if self.sample_rate.spec_get_rate() > 0 && size <= usize::MAX {
            Some(size as usize)
        } else {
            None
        }
    }

    #[verifier::when_used_as_spec(spec_frame_size)]
    pub fn frame_size(&self) -> (size: Option<usize>)
        ensures
            size == self.spec_frame_size(),
    {
        let hz: u128 = self.sample_rate.get_rate() as u128;
        if hz == 0 {
            return None;
        }
        let kbps: u128 = self.bit_rate.get_rate() as u128;
        let pad: u128 = if self.padding {
            1
        } else {
            0
        };
        let size: u128 = 144 * kbps * 1000 / hz + pad;
        if size <= usize::MAX as u128 {
            Some(size as usize)
        } else {
            None
        }
    }

    /// The number of bytes of side information that follow the header.
    pub open spec fn spec_side_info_len(&self) -> usize {
        side_info_bytes(self.channel) as usize
    }

    #[verifier::when_used_as_spec(spec_side_info_len)]
    pub fn side_info_len(&self) -> (len: usize)
        ensures
            len == self.spec_side_info_len(),
    {
        match self.channel {
            MpegChannelMode::SingleChannel => 17,
            _ => 32,
        }
    }

    /// The number of bytes of the checksum that stands between the header and
    /// the side information: 2 in a protected frame, else none.
    pub open spec fn spec_checksum_len(&self) -> usize {
        if self.protection == MpegProtection::Protected {
            2
        } else {
            0
        }
    }

    #[verifier::when_used_as_spec(spec_checksum_len)]
    pub fn checksum_len(&self) -> (len: usize)
        ensures
            len == self.spec_checksum_len(),
    {
        match self.protection {
            MpegProtection::Protected => 2,
            MpegProtection::NotProtected => 0,
        }
    }

    /// The number of bytes of main data in the frame: what is left of the
    /// frame after the header, the checksum of a protected frame and the side
    /// information.  None where the frame has no length or is too short.
    pub open spec fn spec_main_data_len(&self) -> Option<usize> {
        let fixed = 4 + self.spec_checksum_len() + self.spec_side_info_len();
        match self.spec_frame_size() {
            Some(size) => if size >= fixed {
                Some((size - fixed) as usize)
            } else {
                None
            },
            None => None,
        }
    }

    #[verifier::when_used_as_spec(spec_main_data_len)]
    pub fn main_data_len(&self) -> (len: Option<usize>)
        ensures
            len == self.spec_main_data_len(),
    {
        let fixed: usize = 4 + self.checksum_len() + self.side_info_len();
        match self.frame_size() {
            Some(size) => if size >= fixed {
                Some(size - fixed)
            } else {
                None
            },
            None => None,
        }
    }
}

/// Whether four bytes begin with the frame sync: eleven bits that are set.
pub open spec fn has_frame_sync(header: Seq<u8>) -> bool {
    header[0] == 0xff && header[1] / 32 == 7
}

/// The fields that four header bytes hold, whatever their sync.
pub open spec fn header_fields(header: Seq<u8>) -> MpegHeader {
    MpegHeader::of_fields(
        MpegVersion::spec_new((header[1] / 8) % 4),
        MpegLayer::spec_new((header[1] / 2) % 4),
        MpegProtection::spec_new(header[1] % 2),
        header[2] / 16,
        (header[2] / 4) % 4,
        (header[2] / 2) % 2 == 1,
        MpegChannelMode::spec_new(header[3] / 64),
        MpegModeExtension::spec_new((header[3] / 16) % 4),
        MpegCopyright::spec_new((header[3] / 8) % 2),
        MpegOringinal::spec_new((header[3] / 4) % 2),
    )
}

/// What four bytes decode to as a frame header.
pub open spec fn parse_header_spec(header: Seq<u8>) -> Result<MpegHeader, DecodeError> {
    let fields = header_fields(header);
    if !has_frame_sync(header) {
        Err(DecodeError::CanNotFindFrameSync)
    } else if fields.version == MpegVersion::Reserved || fields.layer == MpegLayer::Reserved {
        Err(DecodeError::UnsupportedMpegVersion(fields.version.spec_to_value()))
    } else {
        Ok(fields)
    }
}

/// Decodes the four bytes of a frame header.
pub fn parse_header(header: &[u8; 4]) -> (r: Result<MpegHeader, DecodeError>)
    ensures
        r == parse_header_spec(header@),
        r matches Ok(h) ==> {
            &&& h.bit_rate.spec_get_value() == header[2] / 16
            &&& h.bit_rate.spec_get_rate() == bitrate_kbps(header[2] / 16, h.version, h.layer)
            &&& h.sample_rate.spec_get_value() == (header[2] / 4) % 4
            &&& h.sample_rate.spec_get_rate() == sample_rate_hz((header[2] / 4) % 4, h.version)
        },
{
    if header[0] != 0xff || header[1] / 32 != 7 {
        return Err(DecodeError::CanNotFindFrameSync);
    }
    let version = MpegVersion::new((header[1] / 8) % 4);
    let layer = MpegLayer::new((header[1] / 2) % 4);
    if version == MpegVersion::Reserved || layer == MpegLayer::Reserved {
        return Err(DecodeError::UnsupportedMpegVersion(version.to_value()));
    }
    let protection = MpegProtection::new(header[1] % 2);
    let bit_rate = MpegBitRate::new(header[2] / 16, version, layer);
    let sample_rate = MpegSampleRate::new((header[2] / 4) % 4, version);
    let padding = (header[2] / 2) % 2 == 1;
    let channel = MpegChannelMode::new(header[3] / 64);
    let mode_extension = MpegModeExtension::new((header[3] / 16) % 4);
    let copyright = MpegCopyright::new((header[3] / 8) % 2);
    let original = MpegOringinal::new((header[3] / 4) % 2);
    Ok(
        MpegHeader {
            version,
            layer,
            protection,
            bit_rate,
            sample_rate,
            padding,
            channel,
            mode_extension,
            copyright,
            original,
        },
    )
}

/// The four header bytes that hold the given fields; the private bit and the
/// emphasis are zero.
pub open spec fn header_bytes(
    version: MpegVersion,
    layer: MpegLayer,
    protection: MpegProtection,
    bitrate_index: u8,
    sample_rate_index: u8,
    padding: bool,
    channel: MpegChannelMode,
    mode_extension: MpegModeExtension,
    copyright: MpegCopyright,
    original: MpegOringinal,
) -> Seq<u8> {
    seq![
        0xffu8,
        (0xe0 + 8 * version.spec_to_value() + 2 * layer.spec_to_value()
            + protection.spec_to_value()) as u8,
        (16 * bitrate_index + 4 * sample_rate_index + if padding {
            2int
        } else {
            0int
        }) as u8,
        (64 * channel.spec_to_value() + 16 * mode_extension.spec_to_value() + 8
            * copyright.spec_to_value() + 4 * original.spec_to_value()) as u8,
    ]
}

impl MpegHeader {
    /// The four bytes that hold the header's fields, with the private bit
    /// and the emphasis zero; none where an index does not fit its field.
    pub fn to_bytes(&self) -> (bytes: Option<[u8; 4]>)
        ensures
            bytes is Some <==> self.bit_rate.spec_get_value() < 16
                && self.sample_rate.spec_get_value() < 4,
            bytes matches Some(b) ==> b@ == header_bytes(
                self.version,
                self.layer,
                self.protection,
                self.bit_rate.spec_get_value() as u8,
                self.sample_rate.spec_get_value() as u8,
                self.padding,
                self.channel,
                self.mode_extension,
                self.copyright,
                self.original,
            ),
    {
        let bitrate_index: usize = self.bit_rate.get_value();
        let sample_rate_index: usize = self.sample_rate.get_value();
        if bitrate_index >= 16 || sample_rate_index >= 4 {
            return None;
        }
        let pad: u8 = if self.padding {
            2
        } else {
            0
        };
        let second: u8 = 0xe0 + 8 * self.version.to_value() + 2 * self.layer.to_value()
            + self.protection.to_value();
        let third: u8 = 16 * (bitrate_index as u8) + 4 * (sample_rate_index as u8) + pad;
        let fourth: u8 = 64 * self.channel.to_value() + 16 * self.mode_extension.to_value() + 8
            * self.copyright.to_value() + 4 * self.original.to_value();
        let bytes: [u8; 4] = [0xff, second, third, fourth];
        proof {
            let expected = header_bytes(
                self.version,
                self.layer,
                self.protection,
                bitrate_index as u8,
                sample_rate_index as u8,
                self.padding,
                self.channel,
                self.mode_extension,
                self.copyright,
                self.original,
            );
            assert(expected.len() == 4);
            assert(expected[0] == 0xff);
            assert(expected[1] == second);
            assert(expected[2] == third);
            assert(expected[3] == fourth);
        }
        assert(bytes@ =~= header_bytes(
            self.version,
            self.layer,
            self.protection,
            bitrate_index as u8,
            sample_rate_index as u8,
            self.padding,
            self.channel,
            self.mode_extension,
            self.copyright,
            self.original,
        ));
        Some(bytes)
    }
}

/// Writing the fields of a header into four bytes and decoding those bytes
/// gives the same fields back, and so the same bit rate, sampling frequency
/// and frame length.  This holds for every version and layer that is not
/// reserved, every bit-rate index and every sampling-frequency index.
pub proof fn lemma_header_roundtrip(
    version: MpegVersion,
    layer: MpegLayer,
    protection: MpegProtection,
    bitrate_index: u8,
    sample_rate_index: u8,
    padding: bool,
    channel: MpegChannelMode,
    mode_extension: MpegModeExtension,
    copyright: MpegCopyright,
    original: MpegOringinal,
)
    requires
        version != MpegVersion::Reserved,
        layer != MpegLayer::Reserved,
        bitrate_index < 16,
        sample_rate_index < 4,
    ensures
        ({
            let fields = MpegHeader::of_fields(
                version,
                layer,
                protection,
                bitrate_index,
                sample_rate_index,
                padding,
                channel,
                mode_extension,
                copyright,
                original,
            );
            let bytes = header_bytes(
                version,
                layer,
                protection,
                bitrate_index,
                sample_rate_index,
                padding,
                channel,
                mode_extension,
                copyright,
                original,
            );
            &&& bytes.len() == 4
            &&& parse_header_spec(bytes) == Ok::<MpegHeader, DecodeError>(fields)
            &&& fields.bit_rate.spec_get_rate() == bitrate_kbps(bitrate_index, version, layer)
            &&& fields.sample_rate.spec_get_rate() == sample_rate_hz(sample_rate_index, version)
        }),
{
    broadcast use MpegBitRate::lemma_from_parts, MpegSampleRate::lemma_from_parts;

    lemma_header_bytes_fields(
        version,
        layer,
        protection,
        bitrate_index,
        sample_rate_index,
        padding,
        channel,
        mode_extension,
        copyright,
        original,
    );
}

/// Writing the fields of a header into four bytes and decoding those bytes
/// gives a header whose frame length is the one that the fields' bit rate,
/// sampling frequency and padding give.  This holds for every version and
/// layer that is not reserved, every bit-rate index and every
/// sampling-frequency index that is not reserved.
pub proof fn lemma_header_roundtrip_frame_size(
    version: MpegVersion,
    layer: MpegLayer,
    protection: MpegProtection,
    bitrate_index: u8,
    sample_rate_index: u8,
    padding: bool,
    channel: MpegChannelMode,
    mode_extension: MpegModeExtension,
    copyright: MpegCopyright,
    original: MpegOringinal,
)
    requires
        version != MpegVersion::Reserved,
        layer != MpegLayer::Reserved,
        bitrate_index < 16,
        sample_rate_index < 3,
    ensures
        parse_header_spec(
            header_bytes(
                version,
                layer,
                protection,
                bitrate_index,
                sample_rate_index,
                padding,
                channel,
                mode_extension,
                copyright,
                original,
            ),
        ) matches Ok(header) && header.spec_frame_size() == Some(
            frame_size_bytes(
                bitrate_kbps(bitrate_index, version, layer) as int,
                sample_rate_hz(sample_rate_index, version) as int,
                padding,
            ) as usize,
        ),
{
    lemma_header_roundtrip(
        version,
        layer,
        protection,
        bitrate_index,
        sample_rate_index,
        padding,
        channel,
        mode_extension,
        copyright,
        original,
    );
    lemma_frame_size_fits(bitrate_index, sample_rate_index, version, layer, padding);
}

/// The four bytes made of header fields begin with the frame sync and hold
/// those fields.
proof fn lemma_header_bytes_fields(
    version: MpegVersion,
    layer: MpegLayer,
    protection: MpegProtection,
    bitrate_index: u8,
    sample_rate_index: u8,
    padding: bool,
    channel: MpegChannelMode,
    mode_extension: MpegModeExtension,
    copyright: MpegCopyright,
    original: MpegOringinal,
)
    requires
        bitrate_index < 16,
        sample_rate_index < 4,
    ensures
        ({
            let bytes = header_bytes(
                version,
                layer,
                protection,
                bitrate_index,
                sample_rate_index,
                padding,
                channel,
                mode_extension,
                copyright,
                original,
            );
            &&& bytes.len() == 4
            &&& has_frame_sync(bytes)
            &&& header_fields(bytes) == MpegHeader::of_fields(
                version,
                layer,
                protection,
                bitrate_index,
                sample_rate_index,
                padding,
                channel,
                mode_extension,
                copyright,
                original,
            )
        }),
{
    let bytes = header_bytes(
        version,
        layer,
        protection,
        bitrate_index,
        sample_rate_index,
        padding,
        channel,
        mode_extension,
        copyright,
        original,
    );
    let pad: u8 = if padding {
        1
    } else {
        0
    };
    let v = version.spec_to_value();
    let l = layer.spec_to_value();
    let p = protection.spec_to_value();
    let c = channel.spec_to_value();
    let e = mode_extension.spec_to_value();
    let r = copyright.spec_to_value();
    let o = original.spec_to_value();
    lemma_packed_fields(7, v, l, p);
    lemma_second_byte(bitrate_index, sample_rate_index, pad);
    lemma_third_byte(c, e, r, o);
    assert(bytes[0] == 0xff);
    assert(bytes[1] == 32 * 7 + 8 * v + 2 * l + p);
    assert(bytes[2] == 16 * bitrate_index + 4 * sample_rate_index + 2 * pad);
    assert(bytes[3] == 64 * c + 16 * e + 8 * r + 4 * o);
    assert(MpegVersion::spec_new(v) == version);
    assert(MpegLayer::spec_new(l) == layer);
    assert(MpegProtection::spec_new(p) == protection);
    assert(MpegChannelMode::spec_new(c) == channel);
    assert(MpegModeExtension::spec_new(e) == mode_extension);
    assert(MpegCopyright::spec_new(r) == copyright);
    assert(MpegOringinal::spec_new(o) == original);
}

/// The fields of a byte packed as three bits, two bits, two bits and one bit.
proof fn lemma_packed_fields(top: u8, a: u8, b: u8, c: u8)
    requires
        top < 8,
        a < 4,
        b < 4,
        c < 2,
    ensures
        ({
            let byte = 32 * top + 8 * a + 2 * b + c;
            &&& byte < 256
            &&& byte / 32 == top
            &&& (byte / 8) % 4 == a
            &&& (byte / 2) % 4 == b
            &&& byte % 2 == c
        }),
{
}

/// The fields of the byte that holds the bit-rate index, the
/// sampling-frequency index and the padding bit.
proof fn lemma_second_byte(bitrate_index: u8, sample_rate_index: u8, pad: u8)
    requires
        bitrate_index < 16,
        sample_rate_index < 4,
        pad < 2,
    ensures
        ({
            let byte = 16 * bitrate_index + 4 * sample_rate_index + 2 * pad;
            &&& byte < 256
            &&& byte / 16 == bitrate_index
            &&& (byte / 4) % 4 == sample_rate_index
            &&& (byte / 2) % 2 == pad
        }),
{
}

/// The fields of the byte that holds the channel mode, the mode extension
/// and the copyright and original bits.
proof fn lemma_third_byte(channel: u8, extension: u8, copyright: u8, original: u8)
    requires
        channel < 4,
        extension < 4,
        copyright < 2,
        original < 2,
    ensures
        ({
            let byte = 64 * channel + 16 * extension + 8 * copyright + 4 * original;
            &&& byte < 256
            &&& byte / 64 == channel
            &&& (byte / 16) % 4 == extension
            &&& (byte / 8) % 2 == copyright
            &&& (byte / 4) % 2 == original
        }),
{
}

/// The frame length of a header with a sampling frequency fits `usize`.
proof fn lemma_frame_size_fits(
    bitrate_index: u8,
    sample_rate_index: u8,
    version: MpegVersion,
    layer: MpegLayer,
    padding: bool,
)
    requires
        version != MpegVersion::Reserved,
        sample_rate_index < 3,
    ensures
        sample_rate_hz(sample_rate_index, version) >= 8000,
        0 <= frame_size_bytes(
            bitrate_kbps(bitrate_index, version, layer) as int,
            sample_rate_hz(sample_rate_index, version) as int,
            padding,
        ) <= 0xffff_ffff,
{
    let kbps = bitrate_kbps(bitrate_index, version, layer) as int;
    let hz = sample_rate_hz(sample_rate_index, version) as int;
    assert(0 <= kbps <= 448);
    assert(8000 <= hz <= 48000);
    assert(0 <= 144 * kbps * 1000 / hz <= 144 * 448 * 1000) by (nonlinear_arith)
        requires
            0 <= kbps <= 448,
            8000 <= hz,
    ;
}

} // verus!
