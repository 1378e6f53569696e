//! The tags that are written to a downloaded file.
use crate::episode::Episode;
use crate::feed::Feed;
use crate::filename;
use crate::text;
use crate::time;
use vstd::prelude::*;
use vstd::string::*;

verus! {

/// Why tags could not be written; the error of the tag writer is held as its message.
#[derive(Debug)]
pub enum MetadataError {
    Lofty(String),
}

impl MetadataError {
    /// The message of the error.
    pub fn to_text(&self) -> (res: String)
        ensures
            res@ == match self {
                MetadataError::Lofty(m) => "lofty error: "@ + m@,
            },
    {
        match self {
            MetadataError::Lofty(m) => {
                let mut s = "lofty error: ".to_string();
                s.append(m.as_str());
                s
            },
        }
    }
}

/// The kind of an image.
#[derive(Clone, Copy, Debug, PartialEq, Eq, Structural)]
pub enum ImageMime {
    Jpeg,
    Png,
}

/// Whether bytes start like a PNG image.
pub open spec fn is_png(bytes: Seq<u8>) -> bool {
    bytes.len() >= 4 && bytes[0] == 0x89 && bytes[1] == 0x50 && bytes[2] == 0x4E && bytes[3] == 0x47
}

/// The kind of an image by its first bytes. What is neither JPEG nor PNG counts as JPEG.
pub fn sniff_image_mime(bytes: &[u8]) -> (res: ImageMime)
    ensures
        res == if is_png(bytes@) {
            ImageMime::Png
        } else {
            ImageMime::Jpeg
        },
{
    if bytes.len() >= 4 && bytes[0] == 0x89 && bytes[1] == 0x50 && bytes[2] == 0x4E && bytes[3]
        == 0x47 {
        ImageMime::Png
    } else {
        ImageMime::Jpeg
    }
}

/// The tags of a file.
#[derive(Debug)]
pub struct TagPlan {
    pub title: String,
    pub artist: String,
    pub album: String,
    pub recording_date: String,
    pub comment: Option<String>,
    /// The kind of the cover image, where there is one.
    pub picture: Option<ImageMime>,
}

/// The most bytes of a description that are written as a comment.
pub const COMMENT_MAX_BYTES: usize = 8192;

/// The tags of the file of an episode. Artist and album are the feed's title, else its slug.
pub fn tag_plan(episode: &Episode, feed: &Feed, cover_art: Option<&[u8]>) -> (res: TagPlan)
    ensures
        res.title@ == episode.title@,
        res.artist@ == match feed.title {
            Some(t) => t@,
            None => feed.slug@,
        },
        res.album@ == res.artist@,
        res.recording_date@ == time::date_text(
            episode.pub_date.epoch_secs(),
            episode.pub_date.subsec(),
        ),
        text::opt_text(res.comment) == match episode.description {
            Some(d) => Some(filename::truncated(d@, COMMENT_MAX_BYTES as nat)),
            None => None,
        },
        res.picture == match cover_art {
            Some(bytes) => Some(
                if is_png(bytes@) {
                    ImageMime::Png
                } else {
                    ImageMime::Jpeg
                },
            ),
            None => None,
        },
{
    let artist = match &feed.title {
        Some(t) => t.clone(),
        None => feed.slug.clone(),
    };
    let comment = match &episode.description {
        Some(d) => Some(filename::truncate_utf8(d.as_str(), COMMENT_MAX_BYTES)),
        None => None,
    };
    let picture = match cover_art {
        Some(bytes) => Some(sniff_image_mime(bytes)),
        None => None,
    };
    TagPlan {
        title: episode.title.clone(),
        artist: artist.clone(),
        album: artist,
        recording_date: episode.pub_date.date(),
        comment,
        picture,
    }
}

/// An image is a PNG exactly where its first four bytes are those of a PNG, whatever follows.
pub proof fn law_png_by_its_first_bytes(rest: Seq<u8>, bytes: Seq<u8>)
    ensures
        is_png(seq![0x89u8, 0x50u8, 0x4Eu8, 0x47u8] + rest),
        is_png(bytes) ==> bytes.take(4) =~= seq![0x89u8, 0x50u8, 0x4Eu8, 0x47u8],
        bytes.len() < 4 ==> !is_png(bytes),
        COMMENT_MAX_BYTES == 8192,
{
}

} // verus!
