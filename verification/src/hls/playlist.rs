//! Telling master playlists from media playlists, and parsing either.

use vstd::prelude::*;

use crate::hls::error::{HlsError, HlsErrorView};
use crate::hls::master::{MasterParse, master_spec, parse_master};
use crate::hls::media::{
    MediaParse, lines_from, longer_than, media_spec, parse_media, starts, strip, utf8_len,
};
use crate::hls::text::{find_char, str_chars, substr};

verus! {

/// Most tags in a playlist.
pub const MAX_TAGS: usize = 10_000;

/// Largest playlist accepted, in bytes: the longest line times the most lines.
pub const MAX_PLAYLIST_BYTES: u64 = 16_384_000_000;

/// What the tags of `lines` show: whether a variant stream tag and whether a
/// media segment tag occurs, after `tags` tags already counted; more than
/// `MAX_TAGS` tags is an error.
pub open spec fn detect(lines: Seq<Seq<char>>, stream_inf: bool, media: bool, tags: nat) -> Result<
    (bool, bool),
    HlsErrorView,
>
    decreases lines.len(),
{
    if lines.len() == 0 {
        Ok((stream_inf, media))
    } else {
        let l = lines[0];
        let s = stream_inf || starts(l, "#EXT-X-STREAM-INF:"@) || starts(
            l,
            "#EXT-X-I-FRAME-STREAM-INF:"@,
        );
        let m = media || starts(l, "#EXTINF:"@) || starts(l, "#EXT-X-TARGETDURATION:"@);
        let t = if starts(l, "#EXT"@) {
            tags + 1
        } else {
            tags
        };
        if t > MAX_TAGS {
            Err(HlsErrorView::LimitExceeded { limit: "tag count"@ })
        } else {
            detect(lines.drop_first(), s, m, t)
        }
    }
}

/// What a line shows: a variant stream tag, a media segment tag, a tag.
fn line_kind(raw: &str) -> (r: (bool, bool, bool))
    ensures
        r.0 == (starts(raw@, "#EXT-X-STREAM-INF:"@) || starts(raw@, "#EXT-X-I-FRAME-STREAM-INF:"@)),
        r.1 == (starts(raw@, "#EXTINF:"@) || starts(raw@, "#EXT-X-TARGETDURATION:"@)),
        r.2 == starts(raw@, "#EXT"@),
{
    let rc = str_chars(raw);
    let s = strip(&rc, raw, "#EXT-X-STREAM-INF:").is_some() || strip(
        &rc,
        raw,
        "#EXT-X-I-FRAME-STREAM-INF:",
    ).is_some();
    let m = strip(&rc, raw, "#EXTINF:").is_some() || strip(&rc, raw, "#EXT-X-TARGETDURATION:").is_some();
    let t = strip(&rc, raw, "#EXT").is_some();
    (s, m, t)
}

/// The parse of a playlist of either kind.
#[derive(Debug, PartialEq, Eq)]
pub enum PlaylistParse {
    Master(MasterParse),
    Media(MediaParse),
}

/// Which kind of playlist `input` is: `Ok(true)` for a master playlist,
/// `Ok(false)` for a media playlist.
pub open spec fn kind_spec(input: Seq<char>) -> Result<bool, HlsErrorView> {
    if !starts(input, "#EXTM3U"@) {
        Err(HlsErrorView::MissingExtM3u)
    } else if utf8_len(input) > MAX_PLAYLIST_BYTES {
        Err(HlsErrorView::LimitExceeded { limit: "playlist total size"@ })
    } else {
        match detect(lines_from(input, 0), false, false, 0) {
            Err(e) => Err(e),
            Ok((s, m)) => if s && m {
                Err(
                    HlsErrorView::Malformed {
                        line: 1,
                        context: "playlist contains both master and media tags"@,
                    },
                )
            } else {
                Ok(s)
            },
        }
    }
}

/// Parse `input` as a master playlist if it has variant stream tags, else as
/// a media playlist, resolving URIs against `base_uri`. A playlist must
/// begin with `#EXTM3U` and cannot hold both variant stream tags and media
/// segment tags.
pub fn parse(input: &str, base_uri: &str) -> (r: Result<PlaylistParse, HlsError>)
    ensures
        match kind_spec(input@) {
            Err(ev) => r matches Err(e) && e@ == ev,
            Ok(true) => r matches Ok(PlaylistParse::Master(m)) && ({
                let (nums, res) = master_spec(input@, base_uri@);
                &&& crate::hls::master::decimals_view(m.numbers@) == nums
                &&& match res {
                    Ok(v) => m.result matches Ok(p) && p@ == v,
                    Err(s) => m.result matches Err(x) && x@ == s,
                }
            }),
            Ok(false) => r matches Ok(PlaylistParse::Media(m)) && ({
                let (nums, res) = media_spec(input@, base_uri@);
                &&& crate::hls::parser::strings_view(m.numbers@) == nums
                &&& match res {
                    Ok(v) => m.result matches Ok(p) && p@ == v,
                    Err(s) => m.result matches Err(x) && x@ == s,
                }
            }),
        },
{
    let ic = str_chars(input);
    if strip(&ic, input, "#EXTM3U").is_none() {
        return Err(HlsError::MissingExtM3u);
    }
    if longer_than(&ic, MAX_PLAYLIST_BYTES) {
        return Err(HlsError::LimitExceeded { limit: "playlist total size" });
    }
    let mut saw_stream_inf = false;
    let mut saw_media = false;
    let mut tags: usize = 0;
    let mut i: usize = 0;
    while i < ic.len()
        invariant
            ic@ == input@,
            i <= ic@.len(),
            tags <= MAX_TAGS,
            starts(input@, "#EXTM3U"@),
            utf8_len(input@) <= MAX_PLAYLIST_BYTES,
            detect(lines_from(ic@, 0), false, false, 0) == detect(
                lines_from(ic@, i as int),
                saw_stream_inf,
                saw_media,
                tags as nat,
            ),
        decreases ic@.len() - i,
    {
        let j = find_char(&ic, i, '\n');
        let raw = if j >= ic.len() {
            substr(input, i, ic.len())
        } else if j > i && ic[j - 1] == '\r' {
            substr(input, i, j - 1)
        } else {
            substr(input, i, j)
        };
        let ghost lines = lines_from(ic@, i as int);
        assert(lines[0] == raw@ && lines.len() > 0) by {
            if j < ic.len() && j > i && ic[j - 1] == '\r' {
                assert(ic@.subrange(i as int, j as int).drop_last() =~= ic@.subrange(
                    i as int,
                    j - 1,
                ));
            }
        }
        let ghost next = if j >= ic.len() {
            ic@.len() as int
        } else {
            j + 1
        };
        assert(lines.drop_first() =~= lines_from(ic@, next));
        let (s, m, t) = line_kind(raw.as_str());
        saw_stream_inf = saw_stream_inf || s;
        saw_media = saw_media || m;
        if t {
            tags = tags + 1;
            if tags > MAX_TAGS {
                return Err(HlsError::LimitExceeded { limit: "tag count" });
            }
        }
        if j >= ic.len() {
            i = ic.len();
        } else {
            i = j + 1;
        }
    }
    assert(lines_from(ic@, i as int) =~= Seq::<Seq<char>>::empty());
    if saw_stream_inf && saw_media {
        return Err(HlsError::malformed(1, "playlist contains both master and media tags"));
    }
    if saw_stream_inf {
        Ok(PlaylistParse::Master(parse_master(input, base_uri)))
    } else {
        Ok(PlaylistParse::Media(parse_media(input, base_uri)))
    }
}

} // verus!
