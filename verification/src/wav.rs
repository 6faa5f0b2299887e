//! The header of a WAV file of PCM samples.

use vstd::prelude::*;

verus! {

/// The two bytes of a number, the lower first.
pub open spec fn le16(v: int) -> Seq<u8> {
    seq![(v % 256) as u8, ((v / 256) % 256) as u8]
}

/// The four bytes of a number, the lowest first.
pub open spec fn le32(v: int) -> Seq<u8> {
    seq![
        (v % 256) as u8,
        ((v / 256) % 256) as u8,
        ((v / 65536) % 256) as u8,
        ((v / 16777216) % 256) as u8,
    ]
}

/// The number of bytes that the samples of all channels take in a second.
pub open spec fn wav_byte_rate(sample_rate: u32, num_channels: u16, bits_per_sample: u16) -> int {
    sample_rate * num_channels * (bits_per_sample / 8)
}

/// The number of bytes of one sample of every channel.
pub open spec fn wav_block_align(num_channels: u16, bits_per_sample: u16) -> int {
    num_channels * (bits_per_sample / 8)
}

/// The number of bytes of `num_samples` samples.
pub open spec fn wav_data_size(num_samples: u32, bits_per_sample: u16) -> int {
    num_samples * (bits_per_sample / 8)
}

/// Whether every number of the header fits its field.
pub open spec fn wav_header_fits(
    num_samples: u32,
    sample_rate: u32,
    num_channels: u16,
    bits_per_sample: u16,
) -> bool {
    &&& wav_byte_rate(sample_rate, num_channels, bits_per_sample) <= u32::MAX
    &&& wav_block_align(num_channels, bits_per_sample) <= u16::MAX
    &&& 36 + wav_data_size(num_samples, bits_per_sample) <= u32::MAX
}

/// The 44 bytes that begin a WAV file of PCM samples: the `RIFF` chunk with
/// the size of what follows it, the `fmt ` chunk of 16 bytes for PCM, and the
/// head of the `data` chunk with the size of the samples.
pub open spec fn wav_header_bytes(
    num_samples: u32,
    sample_rate: u32,
    num_channels: u16,
    bits_per_sample: u16,
) -> Seq<u8> {
    seq![0x52u8, 0x49, 0x46, 0x46] + le32(36 + wav_data_size(num_samples, bits_per_sample))
        + seq![0x57u8, 0x41, 0x56, 0x45] + seq![0x66u8, 0x6d, 0x74, 0x20] + le32(16) + le16(1)
        + le16(num_channels as int) + le32(sample_rate as int) + le32(
        wav_byte_rate(sample_rate, num_channels, bits_per_sample),
    ) + le16(wav_block_align(num_channels, bits_per_sample)) + le16(bits_per_sample as int)
        + seq![0x64u8, 0x61, 0x74, 0x61] + le32(wav_data_size(num_samples, bits_per_sample))
}

/// Writes a number into two bytes of a header.
fn put16(header: &mut [u8; 44], at: usize, v: u16)
    requires
        at + 2 <= 44,
    ensures
        final(header)@ == old(header)@.update(at as int, le16(v as int)[0]).update(
            at + 1,
            le16(v as int)[1],
        ),
{
    header[at] = (v % 256) as u8;
    header[at + 1] = (v / 256) as u8;
}

/// Writes a number into four bytes of a header.
fn put32(header: &mut [u8; 44], at: usize, v: u32)
    requires
        at + 4 <= 44,
    ensures
        final(header)@ == old(header)@.update(at as int, le32(v as int)[0]).update(
            at + 1,
            le32(v as int)[1],
        ).update(at + 2, le32(v as int)[2]).update(at + 3, le32(v as int)[3]),
{
    header[at] = (v % 256) as u8;
    header[at + 1] = ((v / 256) % 256) as u8;
    header[at + 2] = ((v / 65536) % 256) as u8;
    header[at + 3] = (v / 16777216) as u8;
}

/// The header of a WAV file of `num_samples` PCM samples; none where a number
/// of the header does not fit its field.
pub fn wav_header(num_samples: u32, sample_rate: u32, num_channels: u16, bits_per_sample: u16) -> (header:
    Option<[u8; 44]>)
    ensures
        header is Some <==> wav_header_fits(num_samples, sample_rate, num_channels, bits_per_sample),
        header matches Some(bytes) ==> bytes@ == wav_header_bytes(
            num_samples,
            sample_rate,
            num_channels,
            bits_per_sample,
        ),
{
    let sample_bytes: u64 = (bits_per_sample / 8) as u64;
    assert(sample_bytes <= 8191);
    assert(num_channels as u64 * sample_bytes <= 65535 * 8191) by (nonlinear_arith)
        requires
            num_channels <= 65535,
            sample_bytes <= 8191,
    ;
    let frame_bytes: u64 = num_channels as u64 * sample_bytes;
    assert(frame_bytes == num_channels * (bits_per_sample / 8)) by (nonlinear_arith)
        requires
            frame_bytes == num_channels as u64 * sample_bytes,
            sample_bytes == bits_per_sample / 8,
    ;
    assert(frame_bytes <= 65535 * 8191) by (nonlinear_arith)
        requires
            frame_bytes == num_channels * (bits_per_sample / 8),
            num_channels <= 65535,
            bits_per_sample / 8 <= 8191,
    ;
    assert(sample_rate as u64 * frame_bytes <= 0xffff_ffff * (65535 * 8191)) by (nonlinear_arith)
        requires
            sample_rate <= 0xffff_ffff,
            frame_bytes <= 65535 * 8191,
    ;
    let byte_rate: u64 = sample_rate as u64 * frame_bytes;
    assert(byte_rate == wav_byte_rate(sample_rate, num_channels, bits_per_sample)) by (nonlinear_arith)
        requires
            byte_rate == sample_rate * frame_bytes,
            frame_bytes == num_channels * (bits_per_sample / 8),
            wav_byte_rate(sample_rate, num_channels, bits_per_sample) == sample_rate * num_channels
                * (bits_per_sample / 8),
    ;
    assert(num_samples as u64 * sample_bytes <= 0xffff_ffff * 8191) by (nonlinear_arith)
        requires
            num_samples <= 0xffff_ffff,
            sample_bytes <= 8191,
    ;
    let data_size: u64 = num_samples as u64 * sample_bytes;
    if byte_rate > 0xffff_ffff || frame_bytes > 0xffff || 36 + data_size > 0xffff_ffff {
        return None;
    }
    let mut header: [u8; 44] = [0u8;44];
    header[0] = 0x52;
    header[1] = 0x49;
    header[2] = 0x46;
    header[3] = 0x46;
    put32(&mut header, 4, (36 + data_size) as u32);
    header[8] = 0x57;
    header[9] = 0x41;
    header[10] = 0x56;
    header[11] = 0x45;
    header[12] = 0x66;
    header[13] = 0x6d;
    header[14] = 0x74;
    header[15] = 0x20;
    put32(&mut header, 16, 16);
    put16(&mut header, 20, 1);
    put16(&mut header, 22, num_channels);
    put32(&mut header, 24, sample_rate);
    put32(&mut header, 28, byte_rate as u32);
    put16(&mut header, 32, frame_bytes as u16);
    put16(&mut header, 34, bits_per_sample);
    header[36] = 0x64;
    header[37] = 0x61;
    header[38] = 0x74;
    header[39] = 0x61;
    put32(&mut header, 40, data_size as u32);
    assert(header@ =~= wav_header_bytes(num_samples, sample_rate, num_channels, bits_per_sample));
    Some(header)
}

} // verus!
