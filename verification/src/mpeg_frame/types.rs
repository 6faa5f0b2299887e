//! The fields of a frame header and of the side information.

use crate::text::{decimal_digits, decimal_string};
use vstd::prelude::*;
use vstd::string::StringExecFns;

verus! {

/// Bit rates in kbit/s by bit-rate index: MPEG-1 Layer I.
pub const BITRATE_V1_L1: [usize; 16] = [
    0, 32, 64, 96, 128, 160, 192, 224, 256, 288, 320, 352, 384, 416, 448, 0,
];

/// Bit rates in kbit/s by bit-rate index: MPEG-1 Layer II.
pub const BITRATE_V1_L2: [usize; 16] = [
    0, 32, 48, 56, 64, 80, 96, 112, 128, 160, 192, 224, 256, 320, 384, 0,
];

/// Bit rates in kbit/s by bit-rate index: MPEG-1 Layer III.
pub const BITRATE_V1_L3: [usize; 16] = [
    0, 32, 40, 48, 56, 64, 80, 96, 112, 128, 160, 192, 224, 256, 320, 0,
];

/// Bit rates in kbit/s by bit-rate index: lower sampling frequencies, Layer I.
pub const BITRATE_V2_L1: [usize; 16] = [
    0, 32, 48, 56, 64, 80, 96, 112, 128, 144, 160, 176, 192, 224, 256, 0,
];

/// Bit rates in kbit/s by bit-rate index: lower sampling frequencies, Layers
/// II and III.
pub const BITRATE_V2_L3: [usize; 16] = [
    0, 8, 16, 24, 32, 40, 48, 56, 64, 80, 96, 112, 128, 144, 160, 0,
];

/// Sampling frequencies in Hz by sampling-frequency index: MPEG-1.
pub const SAMPLE_RATE_V1: [usize; 3] = [44100, 48000, 32000];

/// Sampling frequencies in Hz by sampling-frequency index: MPEG-2.
pub const SAMPLE_RATE_V2: [usize; 3] = [22050, 24000, 16000];

/// Sampling frequencies in Hz by sampling-frequency index: MPEG-2.5.
pub const SAMPLE_RATE_V2_5: [usize; 3] = [11025, 12000, 8000];

#[derive(Debug, PartialEq, Eq, Clone, Copy, Structural)]
pub enum MpegVersion {
    V2_5,
    Reserved,
    V2,
    V1,
}

impl MpegVersion {
    /// The version that the two-bit field `value` stands for.
    pub open spec fn spec_new(value: u8) -> Self {
        if value == 0 {
            Self::V2_5
        } else if value == 2 {
            Self::V2
        } else if value == 3 {
            Self::V1
        } else {
            Self::Reserved
        }
    }

    #[verifier::when_used_as_spec(spec_new)]
    pub fn new(value: u8) -> (v: Self)
        ensures
            v == Self::spec_new(value),
    {
        match value {
            0 => Self::V2_5,
            1 => Self::Reserved,
            2 => Self::V2,
            3 => Self::V1,
            _ => Self::Reserved,
        }
    }

    pub open spec fn name(&self) -> Seq<char> {
        match self {
            Self::V2_5 => "MPEG Version 2.5"@,
            Self::Reserved => "Reserved"@,
            Self::V2 => "MPEG Version 2"@,
            Self::V1 => "MPEG Version 1"@,
        }
    }

    pub fn to_string(&self) -> (s: &'static str)
        ensures
            s@ == self.name(),
    {
        match self {
            Self::V2_5 => "MPEG Version 2.5",
            Self::Reserved => "Reserved",
            Self::V2 => "MPEG Version 2",
            Self::V1 => "MPEG Version 1",
        }
    }

    pub open spec fn spec_to_value(&self) -> u8 {
        match self {
            Self::V2_5 => 0,
            Self::Reserved => 1,
            Self::V2 => 2,
            Self::V1 => 3,
        }
    }

    #[verifier::when_used_as_spec(spec_to_value)]
    pub fn to_value(&self) -> (value: u8)
        ensures
            value == self.spec_to_value(),
    {
        match self {
            Self::V2_5 => 0,
            Self::Reserved => 1,
            Self::V2 => 2,
            Self::V1 => 3,
        }
    }
}

#[derive(Debug, PartialEq, Eq, Clone, Copy, Structural)]
pub enum MpegLayer {
    Reserved,
    Layer3,
    Layer2,
    Layer1,
}

impl MpegLayer {
    /// The layer that the two-bit field `value` stands for.
    pub open spec fn spec_new(value: u8) -> Self {
        if value == 1 {
            Self::Layer3
        } else if value == 2 {
            Self::Layer2
        } else if value == 3 {
            Self::Layer1
        } else {
            Self::Reserved
        }
    }

    #[verifier::when_used_as_spec(spec_new)]
    pub fn new(value: u8) -> (l: Self)
        ensures
            l == Self::spec_new(value),
    {
        match value {
            0 => Self::Reserved,
            1 => Self::Layer3,
            2 => Self::Layer2,
            3 => Self::Layer1,
            _ => Self::Reserved,
        }
    }

    pub open spec fn name(&self) -> Seq<char> {
        match self {
            Self::Reserved => "Reserved"@,
            Self::Layer3 => "Layer III"@,
            Self::Layer2 => "Layer II"@,
            Self::Layer1 => "Layer I"@,
        }
    }

    pub fn to_string(&self) -> (s: &'static str)
        ensures
            s@ == self.name(),
    {
        match self {
            Self::Reserved => "Reserved",
            Self::Layer3 => "Layer III",
            Self::Layer2 => "Layer II",
            Self::Layer1 => "Layer I",
        }
    }

    pub open spec fn spec_to_value(&self) -> u8 {
        match self {
            Self::Reserved => 0,
            Self::Layer3 => 1,
            Self::Layer2 => 2,
            Self::Layer1 => 3,
        }
    }

    #[verifier::when_used_as_spec(spec_to_value)]
    pub fn to_value(&self) -> (value: u8)
        ensures
            value == self.spec_to_value(),
    {
        match self {
            Self::Reserved => 0,
            Self::Layer3 => 1,
            Self::Layer2 => 2,
            Self::Layer1 => 3,
        }
    }
}

#[derive(Debug, PartialEq, Eq, Clone, Copy, Structural)]
pub enum MpegProtection {
    /// A 16-bit CRC follows the header.
    Protected,
    NotProtected,
}

impl MpegProtection {
    /// The protection that the one-bit field `value` stands for.
    pub open spec fn spec_new(value: u8) -> Self {
        if value == 0 {
            Self::Protected
        } else {
            Self::NotProtected
        }
    }

    #[verifier::when_used_as_spec(spec_new)]
    pub fn new(value: u8) -> (p: Self)
        ensures
            p == Self::spec_new(value),
    {
        match value {
            0 => Self::Protected,
            _ => Self::NotProtected,
        }
    }

    pub open spec fn name(&self) -> Seq<char> {
        match self {
            Self::Protected => "Protected"@,
            Self::NotProtected => "NotProtected"@,
        }
    }

    pub fn to_string(&self) -> (s: &'static str)
        ensures
            s@ == self.name(),
    {
        match self {
            Self::Protected => "Protected",
            Self::NotProtected => "NotProtected",
        }
    }

    pub open spec fn spec_to_value(&self) -> u8 {
        match self {
            Self::Protected => 0,
            Self::NotProtected => 1,
        }
    }

    #[verifier::when_used_as_spec(spec_to_value)]
    pub fn to_value(&self) -> (value: u8)
        ensures
            value == self.spec_to_value(),
    {
        match self {
            Self::Protected => 0,
            Self::NotProtected => 1,
        }
    }
}

/// The bit rate in kbit/s that bit-rate index `value` selects for a version
/// and a layer; 0 for the free-format index, the forbidden index and anything
/// above it.
///
/// The lowest rate of the lower-sampling-frequency table, 8 kbit/s, is given
/// for MPEG-2 Layers II and III only; every other combination has 32 kbit/s
/// at index 1.
pub open spec fn bitrate_kbps(value: u8, ver: MpegVersion, layer: MpegLayer) -> usize {
    if value == 0 || value >= 15 {
        0
    } else if ver == MpegVersion::V1 {
        if layer == MpegLayer::Layer1 {
            BITRATE_V1_L1[value as int]
        } else if layer == MpegLayer::Layer2 {
            BITRATE_V1_L2[value as int]
        } else {
            BITRATE_V1_L3[value as int]
        }
    } else if layer == MpegLayer::Layer1 {
        BITRATE_V2_L1[value as int]
    } else if value == 1 && !(ver == MpegVersion::V2 && (layer == MpegLayer::Layer2 || layer
        == MpegLayer::Layer3)) {
        32
    } else {
        BITRATE_V2_L3[value as int]
    }
}

#[derive(Debug, PartialEq, Eq, Clone, Copy, Structural)]
pub struct MpegBitRate {
    value: usize,
    rate: usize,
}

impl MpegBitRate {
    /// The bit-rate index.
    pub closed spec fn spec_get_value(&self) -> usize {
        self.value
    }

    /// The bit rate in kbit/s.
    pub closed spec fn spec_get_rate(&self) -> usize {
        self.rate
    }

    /// The bit rate with a given index and rate.
    pub closed spec fn from_parts(value: usize, rate: usize) -> Self {
        Self { value, rate }
    }

    /// The parts of a bit rate made of parts.
    pub broadcast proof fn lemma_from_parts(value: usize, rate: usize)
        ensures
            (#[trigger] Self::from_parts(value, rate)).spec_get_value() == value,
            Self::from_parts(value, rate).spec_get_rate() == rate,
    {
    }

    pub fn new(value: u8, ver: MpegVersion, layer: MpegLayer) -> (b: Self)
        ensures
            b == Self::from_parts(value as usize, bitrate_kbps(value, ver, layer)),
            b.spec_get_value() == value,
            b.spec_get_rate() == bitrate_kbps(value, ver, layer),
    {
        let index: usize = value as usize;
        let rate: usize = if value == 0 || value >= 15 {
            0
        } else if ver == MpegVersion::V1 {
            if layer == MpegLayer::Layer1 {
                BITRATE_V1_L1[index]
            } else if layer == MpegLayer::Layer2 {
                BITRATE_V1_L2[index]
            } else {
                BITRATE_V1_L3[index]
            }
        } else if layer == MpegLayer::Layer1 {
            BITRATE_V2_L1[index]
        } else if value == 1 && !(ver == MpegVersion::V2 && (layer == MpegLayer::Layer2 || layer
            == MpegLayer::Layer3)) {
            32
        } else {
            BITRATE_V2_L3[index]
        };
        Self { value: index, rate }
    }

    #[verifier::when_used_as_spec(spec_get_value)]
    pub fn get_value(&self) -> (value: usize)
        ensures
            value == self.spec_get_value(),
    {
        self.value
    }

    #[verifier::when_used_as_spec(spec_get_rate)]
    pub fn get_rate(&self) -> (rate: usize)
        ensures
            rate == self.spec_get_rate(),
    {
        self.rate
    }

    /// The rate in decimal, followed by `Kbps`.
    pub fn to_string(&self) -> (s: String)
        ensures
            s@ == decimal_digits(self.spec_get_rate() as nat) + "Kbps"@,
    {
        decimal_string(self.rate).concat("Kbps")
    }
}

/// The sampling frequency in Hz that sampling-frequency index `value` selects
/// for a version; 0 for the reserved index, anything above it, and the
/// reserved version.
pub open spec fn sample_rate_hz(value: u8, ver: MpegVersion) -> usize {
    if value >= 3 {
        0
    } else {
        match ver {
            MpegVersion::V1 => SAMPLE_RATE_V1[value as int],
            MpegVersion::V2 => SAMPLE_RATE_V2[value as int],
            MpegVersion::V2_5 => SAMPLE_RATE_V2_5[value as int],
            MpegVersion::Reserved => 0,
        }
    }
}

#[derive(Debug, PartialEq, Eq, Clone, Copy, Structural)]
pub struct MpegSampleRate {
    value: usize,
    rate: usize,
}

impl MpegSampleRate {
    /// The sampling-frequency index.
    pub closed spec fn spec_get_value(&self) -> usize {
        self.value
    }

    /// The sampling frequency in Hz.
    pub closed spec fn spec_get_rate(&self) -> usize {
        self.rate
    }

    /// The sampling frequency with a given index and rate.
    pub closed spec fn from_parts(value: usize, rate: usize) -> Self {
        Self { value, rate }
    }

    /// The parts of a sampling frequency made of parts.
    pub broadcast proof fn lemma_from_parts(value: usize, rate: usize)
        ensures
            (#[trigger] Self::from_parts(value, rate)).spec_get_value() == value,
            Self::from_parts(value, rate).spec_get_rate() == rate,
    {
    }

    pub fn new(value: u8, ver: MpegVersion) -> (r: Self)
        ensures
            r == Self::from_parts(value as usize, sample_rate_hz(value, ver)),
            r.spec_get_value() == value,
            r.spec_get_rate() == sample_rate_hz(value, ver),
    {
        let index: usize = value as usize;
        let rate: usize = if value >= 3 {
            0
        } else {
            match ver {
                MpegVersion::V1 => SAMPLE_RATE_V1[index],
                MpegVersion::V2 => SAMPLE_RATE_V2[index],
                MpegVersion::V2_5 => SAMPLE_RATE_V2_5[index],
                MpegVersion::Reserved => 0,
            }
        };
        Self { value: index, rate }
    }

    #[verifier::when_used_as_spec(spec_get_value)]
    pub fn get_value(&self) -> (value: usize)
        ensures
            value == self.spec_get_value(),
    {
        self.value
    }

    #[verifier::when_used_as_spec(spec_get_rate)]
    pub fn get_rate(&self) -> (rate: usize)
        ensures
            rate == self.spec_get_rate(),
    {
        self.rate
    }

    /// The rate in decimal, followed by `Hz`.
    pub fn to_string(&self) -> (s: String)
        ensures
            s@ == decimal_digits(self.spec_get_rate() as nat) + "Hz"@,
    {
        decimal_string(self.rate).concat("Hz")
    }
}

#[derive(Debug, PartialEq, Eq, Clone, Copy, Structural)]
pub enum MpegChannelMode {
    Stereo,
    JointStereo,
    DualChannel,
    SingleChannel,
}

impl MpegChannelMode {
    /// The channel mode that the two-bit field `value` stands for.
    pub open spec fn spec_new(value: u8) -> Self {
        if value == 1 {
            Self::JointStereo
        } else if value == 2 {
            Self::DualChannel
        } else if value == 3 {
            Self::SingleChannel
        } else {
            Self::Stereo
        }
    }

    #[verifier::when_used_as_spec(spec_new)]
    pub fn new(value: u8) -> (m: Self)
        ensures
            m == Self::spec_new(value),
    {
        match value {
            0 => Self::Stereo,
            1 => Self::JointStereo,
            2 => Self::DualChannel,
            3 => Self::SingleChannel,
            _ => Self::Stereo,
        }
    }

    pub open spec fn name(&self) -> Seq<char> {
        match self {
            Self::Stereo => "Stereo"@,
            Self::JointStereo => "Joint Stereo"@,
            Self::DualChannel => "Dual Channel"@,
            Self::SingleChannel => "Single Channel"@,
        }
    }

    pub fn to_string(&self) -> (s: &'static str)
        ensures
            s@ == self.name(),
    {
        match self {
            Self::Stereo => "Stereo",
            Self::JointStereo => "Joint Stereo",
            Self::DualChannel => "Dual Channel",
            Self::SingleChannel => "Single Channel",
        }
    }

    pub open spec fn spec_to_value(&self) -> u8 {
        match self {
            Self::Stereo => 0,
            Self::JointStereo => 1,
            Self::DualChannel => 2,
            Self::SingleChannel => 3,
        }
    }

    #[verifier::when_used_as_spec(spec_to_value)]
    pub fn to_value(&self) -> (value: u8)
        ensures
            value == self.spec_to_value(),
    {
        match self {
            Self::Stereo => 0,
            Self::JointStereo => 1,
            Self::DualChannel => 2,
            Self::SingleChannel => 3,
        }
    }

    /// The number of channels: 1 for a single channel, else 2.
    pub open spec fn spec_to_channel_num(&self) -> usize {
        if *self == Self::SingleChannel {
            1
        } else {
            2
        }
    }

    #[verifier::when_used_as_spec(spec_to_channel_num)]
    pub fn to_channel_num(&self) -> (n: usize)
        ensures
            n == self.spec_to_channel_num(),
    {
        match self {
            Self::Stereo => 2,
            Self::JointStereo => 2,
            Self::DualChannel => 2,
            Self::SingleChannel => 1,
        }
    }
}

#[derive(Debug, PartialEq, Eq, Clone, Copy, Structural)]
pub struct MpegModeExtension {
    pub ms_stereo: bool,
    pub intensity_stereo: bool,
}

impl MpegModeExtension {
    /// The joint-stereo tools that the field `value` switches on: mid/side by
    /// anything above its lowest bit, intensity by its lowest bit.
    pub open spec fn spec_new(value: u8) -> Self {
        Self { ms_stereo: value >= 2, intensity_stereo: value % 2 == 1 }
    }

    #[verifier::when_used_as_spec(spec_new)]
    pub fn new(value: u8) -> (m: Self)
        ensures
            m == Self::spec_new(value),
    {
        Self { ms_stereo: value >= 2, intensity_stereo: value % 2 == 1 }
    }

    pub open spec fn flag_name(flag: bool) -> Seq<char> {
        if flag {
            "true"@
        } else {
            "false"@
        }
    }

    pub fn to_string(&self) -> (s: String)
        ensures
            s@ == "MS Stereo: "@ + Self::flag_name(self.ms_stereo) + ", Intensity Stereo: "@
                + Self::flag_name(self.intensity_stereo),
    {
        let ms: &'static str = if self.ms_stereo {
            "true"
        } else {
            "false"
        };
        let intensity: &'static str = if self.intensity_stereo {
            "true"
        } else {
            "false"
        };
        String::from_str("MS Stereo: ").concat(ms).concat(", Intensity Stereo: ").concat(intensity)
    }

    pub open spec fn spec_to_value(&self) -> u8 {
        ((if self.ms_stereo {
            2int
        } else {
            0int
        }) + (if self.intensity_stereo {
            1int
        } else {
            0int
        })) as u8
    }

    #[verifier::when_used_as_spec(spec_to_value)]
    pub fn to_value(&self) -> (value: u8)
        ensures
            value == self.spec_to_value(),
    {
        let high: u8 = if self.ms_stereo {
            2
        } else {
            0
        };
        let low: u8 = if self.intensity_stereo {
            1
        } else {
            0
        };
        high + low
    }
}

#[derive(Debug, PartialEq, Eq, Clone, Copy, Structural)]
pub enum MpegCopyright {
    NotCopyrighted,
    Copyrighted,
}

impl MpegCopyright {
    /// The copyright state that the one-bit field `value` stands for.
    pub open spec fn spec_new(value: u8) -> Self {
        if value == 1 {
            Self::Copyrighted
        } else {
            Self::NotCopyrighted
        }
    }

    #[verifier::when_used_as_spec(spec_new)]
    pub fn new(value: u8) -> (c: Self)
        ensures
            c == Self::spec_new(value),
    {
        match value {
            1 => Self::Copyrighted,
            _ => Self::NotCopyrighted,
        }
    }

    pub open spec fn name(&self) -> Seq<char> {
        match self {
            Self::NotCopyrighted => "Not Copyrighted"@,
            Self::Copyrighted => "Copyrighted"@,
        }
    }

    pub fn to_string(&self) -> (s: &'static str)
        ensures
            s@ == self.name(),
    {
        match self {
            Self::NotCopyrighted => "Not Copyrighted",
            Self::Copyrighted => "Copyrighted",
        }
    }

    pub open spec fn spec_to_value(&self) -> u8 {
        match self {
            Self::NotCopyrighted => 0,
            Self::Copyrighted => 1,
        }
    }

    #[verifier::when_used_as_spec(spec_to_value)]
    pub fn to_value(&self) -> (value: u8)
        ensures
            value == self.spec_to_value(),
    {
        match self {
            Self::NotCopyrighted => 0,
            Self::Copyrighted => 1,
        }
    }
}

#[derive(Debug, PartialEq, Eq, Clone, Copy, Structural)]
pub enum MpegOringinal {
    CopyOfOriginal,
    Original,
}

impl MpegOringinal {
    /// The state that the one-bit field `value` stands for.
    pub open spec fn spec_new(value: u8) -> Self {
        if value == 1 {
            Self::Original
        } else {
            Self::CopyOfOriginal
        }
    }

    #[verifier::when_used_as_spec(spec_new)]
    pub fn new(value: u8) -> (o: Self)
        ensures
            o == Self::spec_new(value),
    {
        match value {
            1 => Self::Original,
            _ => Self::CopyOfOriginal,
        }
    }

    pub open spec fn name(&self) -> Seq<char> {
        match self {
            Self::CopyOfOriginal => "Copy of Original Media"@,
            Self::Original => "Original Media"@,
        }
    }

    pub fn to_string(&self) -> (s: &'static str)
        ensures
            s@ == self.name(),
    {
        match self {
            Self::CopyOfOriginal => "Copy of Original Media",
            Self::Original => "Original Media",
        }
    }

    pub open spec fn spec_to_value(&self) -> u8 {
        match self {
            Self::CopyOfOriginal => 0,
            Self::Original => 1,
        }
    }

    #[verifier::when_used_as_spec(spec_to_value)]
    pub fn to_value(&self) -> (value: u8)
        ensures
            value == self.spec_to_value(),
    {
        match self {
            Self::CopyOfOriginal => 0,
            Self::Original => 1,
        }
    }
}

/// The side information of one granule of one channel.
#[derive(Debug, Clone, Copy, PartialEq, Eq)]
pub struct Channel {
    pub part2_3_length: usize,
    pub big_values: usize,
    pub global_gain: usize,
    pub scalefac_compress: usize,
    pub blocksplit_flag: usize,
    pub block_type: usize,
    pub switch_point: usize,
    pub table_select: [usize; 3],
    pub subblock_gain: [usize; 3],
    pub region_address1: usize,
    pub region_address2: usize,
    pub preflag: usize,
    pub scalefac_scale: usize,
    pub count1table_select: usize,
}

impl Channel {
    /// Every field is within the width of its bit field, and a granule
    /// without block splitting has the normal block type.
    pub open spec fn wf(&self) -> bool {
        &&& self.part2_3_length < 4096
        &&& self.big_values < 512
        &&& self.global_gain < 256
        &&& self.scalefac_compress < 16
        &&& self.blocksplit_flag < 2
        &&& self.block_type < 4
        &&& self.switch_point < 2
        &&& forall|i: int| 0 <= i < 3 ==> #[trigger] self.table_select[i] < 32
        &&& forall|i: int| 0 <= i < 3 ==> #[trigger] self.subblock_gain[i] < 8
        &&& self.region_address1 < 16
        &&& self.region_address2 < 16
        &&& self.preflag < 2
        &&& self.scalefac_scale < 2
        &&& self.count1table_select < 2
        &&& self.blocksplit_flag == 0 ==> self.block_type == 0 && self.switch_point == 0
    }

    /// Whether the value is well formed.
    pub fn is_wf(&self) -> (b: bool)
        ensures
            b == self.wf(),
    {
        let tables = self.table_select[0] < 32 && self.table_select[1] < 32 && self.table_select[2]
            < 32;
        let gains = self.subblock_gain[0] < 8 && self.subblock_gain[1] < 8 && self.subblock_gain[2]
            < 8;
        let fields = self.part2_3_length < 4096 && self.big_values < 512 && self.global_gain < 256
            && self.scalefac_compress < 16 && self.blocksplit_flag < 2 && self.block_type < 4
            && self.switch_point < 2 && self.region_address1 < 16 && self.region_address2 < 16
            && self.preflag < 2 && self.scalefac_scale < 2 && self.count1table_select < 2;
        let unsplit = self.blocksplit_flag != 0 || (self.block_type == 0 && self.switch_point == 0);
        tables && gains && fields && unsplit
    }

    /// Every field is zero.
    pub open spec fn is_zero(&self) -> bool {
        &&& self.part2_3_length == 0
        &&& self.big_values == 0
        &&& self.global_gain == 0
        &&& self.scalefac_compress == 0
        &&& self.blocksplit_flag == 0
        &&& self.block_type == 0
        &&& self.switch_point == 0
        &&& forall|i: int| 0 <= i < 3 ==> #[trigger] self.table_select[i] == 0
        &&& forall|i: int| 0 <= i < 3 ==> #[trigger] self.subblock_gain[i] == 0
        &&& self.region_address1 == 0
        &&& self.region_address2 == 0
        &&& self.preflag == 0
        &&& self.scalefac_scale == 0
        &&& self.count1table_select == 0
    }

    /// A field-by-field comparison: two values with equal fields are equal.
    pub open spec fn same_fields(&self, other: Channel) -> bool {
        &&& self.part2_3_length == other.part2_3_length
        &&& self.big_values == other.big_values
        &&& self.global_gain == other.global_gain
        &&& self.scalefac_compress == other.scalefac_compress
        &&& self.blocksplit_flag == other.blocksplit_flag
        &&& self.block_type == other.block_type
        &&& self.switch_point == other.switch_point
        &&& forall|i: int| 0 <= i < 3 ==> self.table_select[i] == other.table_select[i]
        &&& forall|i: int| 0 <= i < 3 ==> self.subblock_gain[i] == other.subblock_gain[i]
        &&& self.region_address1 == other.region_address1
        &&& self.region_address2 == other.region_address2
        &&& self.preflag == other.preflag
        &&& self.scalefac_scale == other.scalefac_scale
        &&& self.count1table_select == other.count1table_select
    }

    /// Equal fields make equal values.
    pub proof fn lemma_same_fields(self, other: Channel)
        requires
            self.same_fields(other),
        ensures
            self == other,
    {
        assert(self.table_select =~= other.table_select);
        assert(self.subblock_gain =~= other.subblock_gain);
    }

    /// The value whose fields are all zero.
    pub open spec fn zero() -> Channel {
        Channel {
            part2_3_length: 0,
            big_values: 0,
            global_gain: 0,
            scalefac_compress: 0,
            blocksplit_flag: 0,
            block_type: 0,
            switch_point: 0,
            table_select: [0usize, 0usize, 0usize],
            subblock_gain: [0usize, 0usize, 0usize],
            region_address1: 0,
            region_address2: 0,
            preflag: 0,
            scalefac_scale: 0,
            count1table_select: 0,
        }
    }

    pub fn new() -> (c: Self)
        ensures
            c == Channel::zero(),
            c.is_zero(),
            c.wf(),
    {
        let c = Self {
            part2_3_length: 0,
            big_values: 0,
            global_gain: 0,
            scalefac_compress: 0,
            blocksplit_flag: 0,
            block_type: 0,
            switch_point: 0,
            table_select: [0usize;3],
            subblock_gain: [0usize;3],
            region_address1: 0,
            region_address2: 0,
            preflag: 0,
            scalefac_scale: 0,
            count1table_select: 0,
        };
        proof {
            c.lemma_same_fields(Channel::zero());
        }
        c
    }
}

/// The side information of one granule: one entry per channel.
#[derive(Debug, Clone, Copy, PartialEq, Eq)]
pub struct Granule {
    pub channel: [Channel; 2],
}

impl Granule {
    pub open spec fn wf(&self) -> bool {
        forall|ch: int| 0 <= ch < 2 ==> (#[trigger] self.channel[ch]).wf()
    }

    /// Whether the value is well formed.
    pub fn is_wf(&self) -> (b: bool)
        ensures
            b == self.wf(),
    {
        self.channel[0].is_wf() && self.channel[1].is_wf()
    }

    pub open spec fn is_zero(&self) -> bool {
        forall|ch: int| 0 <= ch < 2 ==> (#[trigger] self.channel[ch]).is_zero()
    }

    pub fn new() -> (g: Self)
        ensures
            g.is_zero(),
            g.wf(),
    {
        Self { channel: [Channel::new(), Channel::new()] }
    }
}

/// The side information of a frame.
#[derive(Debug, Clone, Copy, PartialEq, Eq)]
pub struct MpegSideInfo {
    pub main_data_end: usize,
    pub private_bits: usize,
    pub scfsi: [[usize; 4]; 2],
    pub granule: [Granule; 2],
}

impl MpegSideInfo {
    pub open spec fn wf(&self) -> bool {
        &&& self.main_data_end < 512
        &&& self.private_bits < 32
        &&& forall|ch: int, band: int|
            0 <= ch < 2 && 0 <= band < 4 ==> #[trigger] self.scfsi[ch][band] < 2
        &&& forall|gr: int| 0 <= gr < 2 ==> (#[trigger] self.granule[gr]).wf()
    }

    /// Whether the value is well formed.
    pub fn is_wf(&self) -> (b: bool)
        ensures
            b == self.wf(),
    {
        if self.main_data_end >= 512 || self.private_bits >= 32 {
            return false;
        }
        let mut ch: usize = 0;
        while ch < 2
            invariant
                ch <= 2,
                forall|c: int, band: int|
                    0 <= c < ch && 0 <= band < 4 ==> #[trigger] self.scfsi[c][band] < 2,
            decreases 2 - ch,
        {
            let flags = &self.scfsi[ch];
            if flags[0] >= 2 || flags[1] >= 2 || flags[2] >= 2 || flags[3] >= 2 {
                return false;
            }
            ch = ch + 1;
        }
        self.granule[0].is_wf() && self.granule[1].is_wf()
    }

    pub open spec fn is_zero(&self) -> bool {
        &&& self.main_data_end == 0
        &&& self.private_bits == 0
        &&& forall|ch: int, band: int|
            0 <= ch < 2 && 0 <= band < 4 ==> #[trigger] self.scfsi[ch][band] == 0
        &&& forall|gr: int| 0 <= gr < 2 ==> (#[trigger] self.granule[gr]).is_zero()
    }

    pub fn new() -> (s: Self)
        ensures
            s.is_zero(),
            s.wf(),
    {
        Self {
            main_data_end: 0,
            private_bits: 0,
            scfsi: [[0usize;4];2],
            granule: [Granule::new(), Granule::new()],
        }
    }
}

/// The scale factors of one granule of one channel: `sf_l` by long band,
/// `sf_s` by short band and window.
#[derive(Debug, Clone, Copy, PartialEq, Eq)]
pub struct ScaleFactor {
    pub sf_l: [usize; 23],
    pub sf_s: [[usize; 3]; 13],
}

impl ScaleFactor {
    /// Every scale factor fits the four bits that the widest of them has.
    pub open spec fn wf(&self) -> bool {
        &&& forall|sfb: int| 0 <= sfb < 23 ==> #[trigger] self.sf_l[sfb] < 16
        &&& forall|sfb: int, window: int|
            0 <= sfb < 13 && 0 <= window < 3 ==> #[trigger] self.sf_s[sfb][window] < 16
    }

    /// Whether the value is well formed.
    pub fn is_wf(&self) -> (b: bool)
        ensures
            b == self.wf(),
    {
        let mut sfb: usize = 0;
        while sfb < 23
            invariant
                sfb <= 23,
                forall|k: int| 0 <= k < sfb ==> #[trigger] self.sf_l[k] < 16,
            decreases 23 - sfb,
        {
            if self.sf_l[sfb] >= 16 {
                return false;
            }
            sfb = sfb + 1;
        }
        let mut sfb: usize = 0;
        while sfb < 13
            invariant
                sfb <= 13,
                forall|k: int| 0 <= k < 23 ==> #[trigger] self.sf_l[k] < 16,
                forall|k: int, window: int|
                    0 <= k < sfb && 0 <= window < 3 ==> #[trigger] self.sf_s[k][window] < 16,
            decreases 13 - sfb,
        {
            let windows = &self.sf_s[sfb];
            if windows[0] >= 16 || windows[1] >= 16 || windows[2] >= 16 {
                return false;
            }
            sfb = sfb + 1;
        }
        true
    }

    pub open spec fn is_zero(&self) -> bool {
        &&& forall|sfb: int| 0 <= sfb < 23 ==> #[trigger] self.sf_l[sfb] == 0
        &&& forall|sfb: int, window: int|
            0 <= sfb < 13 && 0 <= window < 3 ==> #[trigger] self.sf_s[sfb][window] == 0
    }

    pub fn new() -> (s: Self)
        ensures
            s.is_zero(),
            s.wf(),
    {
        Self { sf_l: [0usize;23], sf_s: [[0usize;3];13] }
    }
}

} // verus!
