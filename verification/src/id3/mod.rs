//! ID3v2 tags: how long a tag is, and the text frames it holds.

use crate::id3::frames::{is_frame_id, text_of, ID3v2Frame};
use vstd::prelude::*;
use vstd::slice::slice_subrange;

pub mod frames;

verus! {

/// The text frames of an ID3v2 tag.
#[derive(Debug, PartialEq, Eq)]
pub struct Id3v2 {
    pub major_version: u8,
    pub revision: u8,
    pub title: Option<String>,
    pub artist: Option<String>,
    pub album: Option<String>,
    pub year: Option<String>,
    pub comment: Option<String>,
    pub genre: Option<String>,
    pub track_number: Option<String>,
}

/// The number that four bytes hold with seven bits each, the first byte
/// highest.
pub open spec fn syncsafe(b0: u8, b1: u8, b2: u8, b3: u8) -> nat {
    ((b0 % 128) * 0x20_0000 + (b1 % 128) * 0x4000 + (b2 % 128) * 0x80 + b3 % 128) as nat
}

/// Whether bytes begin with the mark of an ID3v2 tag.
pub open spec fn has_id3_mark(header: Seq<u8>) -> bool {
    header[0] == 0x49 && header[1] == 0x44 && header[2] == 0x33
}

/// The length in bytes of the ID3v2 tag that a 10-byte tag header begins,
/// the header included; 0 where the bytes begin no tag.
pub open spec fn id3_size(header: Seq<u8>) -> nat {
    if has_id3_mark(header) {
        syncsafe(header[6], header[7], header[8], header[9]) + 10
    } else {
        0
    }
}

/// The length in bytes of the ID3v2 tag that `header` begins: what to skip to
/// come to the first frame of audio.
pub fn get_id3_size(header: &[u8; 10]) -> (size: usize)
    ensures
        size == id3_size(header@),
        size == 0 || 10 <= size < 0x1000_000a,
{
    if header[0] == 0x49 && header[1] == 0x44 && header[2] == 0x33 {
        (header[6] as usize % 128) * 0x20_0000 + (header[7] as usize % 128) * 0x4000 + (header[8] as usize
            % 128) * 0x80 + header[9] as usize % 128 + 10
    } else {
        0
    }
}

/// The text of a field of a tag, if it has one.
pub open spec fn text_view(text: Option<String>) -> Option<Seq<char>> {
    match text {
        Some(s) => Some(s@),
        None => None,
    }
}

/// The text of the last frame with identifier `a b c d` among the frames of a
/// tag, walked from byte `count` of the frames on; `found` where there is no
/// such frame.
///
/// The frames follow the 10-byte tag header.  Each has a 10-byte header, with
/// its identifier in the first four bytes and the length of its content in
/// the next four, and then its content.  The walk ends after `limit` bytes of
/// frames, and before a frame that `data` does not hold whole.
pub open spec fn last_text(
    data: Seq<u8>,
    limit: int,
    revision: u8,
    count: int,
    a: u8,
    b: u8,
    c: u8,
    d: u8,
    found: Option<Seq<char>>,
) -> Option<Seq<char>>
    decreases
            (if count < limit {
                limit - count
            } else {
                0
            }),
{
    let at = 10 + count;
    if count < 0 || count >= limit || at + 10 > data.len() {
        found
    } else {
        let size = syncsafe(data[at + 4], data[at + 5], data[at + 6], data[at + 7]);
        if at + 10 + size > data.len() {
            found
        } else {
            let text = if is_frame_id(data.subrange(at, at + 4), a, b, c, d) {
                Some(text_of(data.subrange(at + 10, at + 10 + size), revision))
            } else {
                found
            };
            last_text(data, limit, revision, count + size + 10, a, b, c, d, text)
        }
    }
}

impl Id3v2 {
    /// Whether the fields hold what the frames of the tag in `data` hold,
    /// once the walk over them has come to byte `count` of the frames.
    pub open spec fn holds_frames_from(&self, data: Seq<u8>, count: int) -> bool {
        let limit = id3_size(data.subrange(0, 10)) - 10;
        let rev = self.revision;
        &&& last_text(data, limit, rev, 0, 0x54, 0x49, 0x54, 0x32, None) == last_text(
            data,
            limit,
            rev,
            count,
            0x54,
            0x49,
            0x54,
            0x32,
            text_view(self.title),
        )
        &&& last_text(data, limit, rev, 0, 0x54, 0x50, 0x45, 0x31, None) == last_text(
            data,
            limit,
            rev,
            count,
            0x54,
            0x50,
            0x45,
            0x31,
            text_view(self.artist),
        )
        &&& last_text(data, limit, rev, 0, 0x54, 0x41, 0x4c, 0x42, None) == last_text(
            data,
            limit,
            rev,
            count,
            0x54,
            0x41,
            0x4c,
            0x42,
            text_view(self.album),
        )
        &&& last_text(data, limit, rev, 0, 0x54, 0x59, 0x45, 0x52, None) == last_text(
            data,
            limit,
            rev,
            count,
            0x54,
            0x59,
            0x45,
            0x52,
            text_view(self.year),
        )
        &&& last_text(data, limit, rev, 0, 0x43, 0x4f, 0x4d, 0x4d, None) == last_text(
            data,
            limit,
            rev,
            count,
            0x43,
            0x4f,
            0x4d,
            0x4d,
            text_view(self.comment),
        )
        &&& last_text(data, limit, rev, 0, 0x54, 0x43, 0x4f, 0x4e, None) == last_text(
            data,
            limit,
            rev,
            count,
            0x54,
            0x43,
            0x4f,
            0x4e,
            text_view(self.genre),
        )
        &&& last_text(data, limit, rev, 0, 0x54, 0x52, 0x43, 0x4b, None) == last_text(
            data,
            limit,
            rev,
            count,
            0x54,
            0x52,
            0x43,
            0x4b,
            text_view(self.track_number),
        )
    }

    /// Whether the walk over the frames of the tag in `data` ends at byte
    /// `count` of the frames.
    pub open spec fn walk_ends_at(data: Seq<u8>, count: int) -> bool {
        let limit = id3_size(data.subrange(0, 10)) - 10;
        let at = 10 + count;
        ||| count >= limit
        ||| at + 10 > data.len()
        ||| at + 10 + syncsafe(data[at + 4], data[at + 5], data[at + 6], data[at + 7]) > data.len()
    }

    /// At the end of the walk the fields hold what the tag holds.
    proof fn lemma_walk_done(&self, data: Seq<u8>, count: int)
        requires
            self.major_version == data[3],
            self.revision == data[4],
            self.holds_frames_from(data, count),
            Self::walk_ends_at(data, count),
        ensures
            self.is_tag_of(data),
    {
    }

    /// Whether the fields hold what the tag in `data` holds: its version, and
    /// for each kind of text frame the text of the last frame of that kind.
    pub open spec fn is_tag_of(&self, data: Seq<u8>) -> bool {
        let limit = id3_size(data.subrange(0, 10)) - 10;
        let rev = data[4];
        &&& self.major_version == data[3]
        &&& self.revision == rev
        &&& text_view(self.title) == last_text(data, limit, rev, 0, 0x54, 0x49, 0x54, 0x32, None)
        &&& text_view(self.artist) == last_text(data, limit, rev, 0, 0x54, 0x50, 0x45, 0x31, None)
        &&& text_view(self.album) == last_text(data, limit, rev, 0, 0x54, 0x41, 0x4c, 0x42, None)
        &&& text_view(self.year) == last_text(data, limit, rev, 0, 0x54, 0x59, 0x45, 0x52, None)
        &&& text_view(self.comment) == last_text(data, limit, rev, 0, 0x43, 0x4f, 0x4d, 0x4d, None)
        &&& text_view(self.genre) == last_text(data, limit, rev, 0, 0x54, 0x43, 0x4f, 0x4e, None)
        &&& text_view(self.track_number) == last_text(
            data,
            limit,
            rev,
            0,
            0x54,
            0x52,
            0x43,
            0x4b,
            None,
        )
    }

    /// Reads the ID3v2 tag that `data` begins with.  There is none where
    /// `data` is shorter than a tag header or does not begin with the mark of
    /// a tag.
    pub fn new(data: &[u8]) -> (tag: Option<Id3v2>)
        ensures
            tag is Some <==> data@.len() >= 10 && has_id3_mark(data@),
            tag matches Some(t) ==> t.is_tag_of(data@),
    {
        let len: usize = data.len();
        if len < 10 {
            return None;
        }
        let header: [u8; 10] = [
            data[0],
            data[1],
            data[2],
            data[3],
            data[4],
            data[5],
            data[6],
            data[7],
            data[8],
            data[9],
        ];
        assert(header@ =~= data@.subrange(0, 10));
        let size: usize = get_id3_size(&header);
        if size == 0 {
            return None;
        }
        let limit: usize = size - 10;
        let revision: u8 = data[4];
        let mut tag = Id3v2 {
            major_version: data[3],
            revision,
            title: None,
            artist: None,
            album: None,
            year: None,
            comment: None,
            genre: None,
            track_number: None,
        };
        let mut count: usize = 0;
        while count < limit && len - 10 - count >= 10
            invariant
                len == data@.len(),
                len >= 10,
                limit == id3_size(data@.subrange(0, 10)) - 10,
                limit < 0x1000_0000,
                count <= len - 10,
                tag.major_version == data@[3],
                tag.revision == data@[4],
                revision == data@[4],
                tag.holds_frames_from(data@, count as int),
            decreases len - count,
        {
            let at: usize = 10 + count;
            let frame_size: usize = (data[at + 4] as usize % 128) * 0x20_0000 + (data[at + 5] as usize
                % 128) * 0x4000 + (data[at + 6] as usize % 128) * 0x80 + data[at + 7] as usize % 128;
            if frame_size > len - at - 10 {
                proof {
                    tag.lemma_walk_done(data@, count as int);
                }
                return Some(tag);
            }
            let frame_id: [u8; 4] = [data[at], data[at + 1], data[at + 2], data[at + 3]];
            assert(frame_id@ =~= data@.subrange(at as int, at + 4));
            let body = slice_subrange(data, at + 10, at + 10 + frame_size);
            let frame = ID3v2Frame::new(&frame_id, body, revision);
            match frame {
                ID3v2Frame::Title(text) => {
                    tag.title = Some(text);
                },
                ID3v2Frame::Artist(text) => {
                    tag.artist = Some(text);
                },
                ID3v2Frame::Album(text) => {
                    tag.album = Some(text);
                },
                ID3v2Frame::Year(text) => {
                    tag.year = Some(text);
                },
                ID3v2Frame::Comment(text) => {
                    tag.comment = Some(text);
                },
                ID3v2Frame::Genre(text) => {
                    tag.genre = Some(text);
                },
                ID3v2Frame::TrackNumber(text) => {
                    tag.track_number = Some(text);
                },
                ID3v2Frame::Unknown => {},
            }
            count = count + frame_size + 10;
        }
        proof {
            tag.lemma_walk_done(data@, count as int);
        }
        Some(tag)
    }
}

} // verus!
