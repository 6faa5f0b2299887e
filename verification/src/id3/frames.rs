//! The frames of an ID3v2 tag that carry text.

use crate::text::{utf8_lossy, utf8_lossy_text};
use vstd::prelude::*;
use vstd::slice::slice_subrange;

verus! {

/// A frame of an ID3v2 tag, with its text.
#[derive(Debug, PartialEq, Eq)]
pub enum ID3v2Frame {
    /// `TIT2`
    Title(String),
    /// `TPE1`
    Artist(String),
    /// `TALB`
    Album(String),
    /// `TYER`
    Year(String),
    /// `COMM`
    Comment(String),
    /// `TCON`
    Genre(String),
    /// `TRCK`
    TrackNumber(String),
    /// Any other frame.
    Unknown,
}

/// The character of a 16-bit code unit: the replacement character for a
/// surrogate, which stands for no character by itself.
pub open spec fn ucs2_char(unit: u16) -> char {
    if 0xD800 <= unit <= 0xDFFF {
        '\u{FFFD}'
    } else {
        unit as char
    }
}

/// The code unit that two bytes make.
pub open spec fn code_unit(first: u8, second: u8, little_endian: bool) -> u16 {
    if little_endian {
        (first as int + 256 * second as int) as u16
    } else {
        (256 * first as int + second as int) as u16
    }
}

/// The first `n` characters of the 16-bit text that begins at byte 3 of
/// `data`.
pub open spec fn ucs2_text(data: Seq<u8>, little_endian: bool, n: int) -> Seq<char>
    decreases n,
{
    if n <= 0 {
        Seq::empty()
    } else {
        ucs2_text(data, little_endian, n - 1).push(
            ucs2_char(code_unit(data[3 + 2 * (n - 1)], data[3 + 2 * (n - 1) + 1], little_endian)),
        )
    }
}

/// The text of a text frame.
///
/// The first byte names the encoding.  Encoding 1 is 16-bit text behind a
/// byte order mark; revision 4 is read as little-endian whatever the mark.  A
/// last byte without a partner is left out.  Encoding 3 is UTF-8.  Any other
/// frame, and one too short for its encoding, has no text.
pub open spec fn text_of(data: Seq<u8>, revision: u8) -> Seq<char> {
    if data.len() == 0 {
        Seq::empty()
    } else if data[0] == 1 {
        if data.len() < 3 {
            Seq::empty()
        } else if (data[1] == 0xff && data[2] == 0xfe) || revision == 4 {
            ucs2_text(data, true, (data.len() - 3) / 2)
        } else if data[1] == 0xfe && data[2] == 0xff {
            ucs2_text(data, false, (data.len() - 3) / 2)
        } else {
            Seq::empty()
        }
    } else if data[0] == 3 {
        utf8_lossy_text(data.subrange(1, data.len() as int))
    } else {
        Seq::empty()
    }
}

/// Reads the 16-bit text that begins at byte 3 of `data`.
fn parse_ucs2(data: &[u8], little_endian: bool) -> (s: String)
    requires
        data@.len() >= 3,
    ensures
        s@ == ucs2_text(data@, little_endian, (data@.len() - 3) / 2),
{
    let len: usize = data.len();
    let count: usize = (len - 3) / 2;
    let mut result = String::new();
    let mut n: usize = 0;
    while n < count
        invariant
            len == data@.len(),
            len >= 3,
            count == (len - 3) / 2,
            n <= count,
            result@ == ucs2_text(data@, little_endian, n as int),
        decreases count - n,
    {
        let first: u8 = data[3 + 2 * n];
        let second: u8 = data[3 + 2 * n + 1];
        let unit: u16 = if little_endian {
            first as u16 + 256 * (second as u16)
        } else {
            256 * (first as u16) + second as u16
        };
        let c: char = match char::from_u32(unit as u32) {
            Some(c) => c,
            None => '\u{FFFD}',
        };
        result.push(c);
        n = n + 1;
    }
    result
}

/// Reads the text of a text frame.
pub fn text_parse(data: &[u8], revision: u8) -> (s: String)
    ensures
        s@ == text_of(data@, revision),
{
    if data.len() == 0 {
        return String::new();
    }
    let encode: u8 = data[0];
    if encode == 1 {
        if data.len() < 3 {
            return String::new();
        }
        if (data[1] == 0xff && data[2] == 0xfe) || revision == 4 {
            return parse_ucs2(data, true);
        } else if data[1] == 0xfe && data[2] == 0xff {
            return parse_ucs2(data, false);
        }
    } else if encode == 3 {
        return utf8_lossy(slice_subrange(data, 1, data.len()));
    }
    String::new()
}

/// The four bytes that name a kind of frame.
pub open spec fn is_frame_id(frame_id: Seq<u8>, a: u8, b: u8, c: u8, d: u8) -> bool {
    frame_id[0] == a && frame_id[1] == b && frame_id[2] == c && frame_id[3] == d
}

impl ID3v2Frame {
    /// The text of the frame, if it has a kind that is known.
    pub open spec fn text(&self) -> Option<Seq<char>> {
        match self {
            ID3v2Frame::Title(s) => Some(s@),
            ID3v2Frame::Artist(s) => Some(s@),
            ID3v2Frame::Album(s) => Some(s@),
            ID3v2Frame::Year(s) => Some(s@),
            ID3v2Frame::Comment(s) => Some(s@),
            ID3v2Frame::Genre(s) => Some(s@),
            ID3v2Frame::TrackNumber(s) => Some(s@),
            ID3v2Frame::Unknown => None,
        }
    }

    /// The frame with the given identifier and content: a frame of one of the
    /// seven kinds of text, with the text of its content, or an unknown one.
    pub fn new(frame_id: &[u8; 4], data: &[u8], revision: u8) -> (frame: Self)
        ensures
            is_frame_id(frame_id@, 0x54, 0x49, 0x54, 0x32) <==> frame is Title,
            is_frame_id(frame_id@, 0x54, 0x50, 0x45, 0x31) <==> frame is Artist,
            is_frame_id(frame_id@, 0x54, 0x41, 0x4c, 0x42) <==> frame is Album,
            is_frame_id(frame_id@, 0x54, 0x59, 0x45, 0x52) <==> frame is Year,
            is_frame_id(frame_id@, 0x43, 0x4f, 0x4d, 0x4d) <==> frame is Comment,
            is_frame_id(frame_id@, 0x54, 0x43, 0x4f, 0x4e) <==> frame is Genre,
            is_frame_id(frame_id@, 0x54, 0x52, 0x43, 0x4b) <==> frame is TrackNumber,
            !(frame is Unknown) ==> frame.text() == Some(text_of(data@, revision)),
    {
        let a: u8 = frame_id[0];
        let b: u8 = frame_id[1];
        let c: u8 = frame_id[2];
        let d: u8 = frame_id[3];
        if a == 0x54 && b == 0x49 && c == 0x54 && d == 0x32 {
            Self::Title(text_parse(data, revision))
        } else if a == 0x54 && b == 0x50 && c == 0x45 && d == 0x31 {
            Self::Artist(text_parse(data, revision))
        } else if a == 0x54 && b == 0x41 && c == 0x4c && d == 0x42 {
            Self::Album(text_parse(data, revision))
        } else if a == 0x54 && b == 0x59 && c == 0x45 && d == 0x52 {
            Self::Year(text_parse(data, revision))
        } else if a == 0x43 && b == 0x4f && c == 0x4d && d == 0x4d {
            Self::Comment(text_parse(data, revision))
        } else if a == 0x54 && b == 0x43 && c == 0x4f && d == 0x4e {
            Self::Genre(text_parse(data, revision))
        } else if a == 0x54 && b == 0x52 && c == 0x43 && d == 0x4b {
            Self::TrackNumber(text_parse(data, revision))
        } else {
            Self::Unknown
        }
    }
}

} // verus!
