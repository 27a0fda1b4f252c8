//! Track title and artist: taken from ID3 metadata, falling back to an
//! "Artist - Title" file name, then to the file name and "Unknown".
use crate::text::{
    chars_of, lowercase_is_unknown, lowercase_of, seq_equal, string_from_chars, trim_range,
    trim_spec,
};
use std::io::Cursor;
use vstd::prelude::*;
use vstd::string::StringExecFns;

verus! {

/// Metadata extracted from an MP3 file's ID3 tags.
#[derive(Debug, Clone, Default)]
pub struct TrackMetadata {
    pub title: Option<String>,
    pub artist: Option<String>,
}

/// The characters of an optional string.
pub open spec fn opt_view(s: Option<String>) -> Option<Seq<char>> {
    match s {
        Some(x) => Some(x@),
        None => None,
    }
}

/// A tag is usable when present, non-empty and not "unknown" in any case.
pub open spec fn tag_usable(t: Option<Seq<char>>) -> bool {
    match t {
        Some(s) => s.len() > 0 && lowercase_of(s) != "unknown"@,
        None => false,
    }
}

/// `s` without a trailing ".mp3" (or else ".MP3").
pub open spec fn strip_mp3(s: Seq<char>) -> Seq<char> {
    if s.len() >= 4 && s.skip(s.len() - 4) == ".mp3"@ {
        s.take(s.len() - 4)
    } else if s.len() >= 4 && s.skip(s.len() - 4) == ".MP3"@ {
        s.take(s.len() - 4)
    } else {
        s
    }
}

/// Index of the first '-' in `s`, if any.
pub open spec fn first_dash(s: Seq<char>) -> Option<int> {
    if exists|i: int| 0 <= i < s.len() && s[i] == '-' && forall|j: int| 0 <= j < i ==> s[j] != '-' {
        Some(choose|i: int| 0 <= i < s.len() && s[i] == '-' && forall|j: int| 0 <= j < i ==> s[j] != '-')
    } else {
        None
    }
}

/// The (title, artist) that `resolve_track_info` gives.
pub open spec fn resolved_info(title: Option<Seq<char>>, artist: Option<Seq<char>>, file_name: Seq<char>) -> (
    Seq<char>,
    Seq<char>,
) {
    let has_title = tag_usable(title);
    let has_artist = tag_usable(artist);
    let stem = strip_mp3(file_name);
    if has_title && has_artist {
        (title->0, artist->0)
    } else if first_dash(stem) is Some && trim_spec(stem.take(first_dash(stem)->0)).len() > 0
        && trim_spec(stem.skip(first_dash(stem)->0 + 1)).len() > 0 {
        let d = first_dash(stem)->0;
        (
            if has_title { title->0 } else { trim_spec(stem.skip(d + 1)) },
            if has_artist { artist->0 } else { trim_spec(stem.take(d)) },
        )
    } else {
        (if has_title { title->0 } else { stem }, if has_artist { artist->0 } else { "Unknown"@ })
    }
}

fn usable(t: &Option<String>) -> (r: bool)
    ensures
        r == tag_usable(opt_view(*t)),
{
    match t {
        Some(s) => s.as_str().unicode_len() > 0 && !lowercase_is_unknown(s.as_str()),
        None => false,
    }
}

fn has_suffix(s: &Vec<char>, suffix: &Vec<char>) -> (r: bool)
    ensures
        r == (s@.len() >= suffix@.len() && s@.skip(s@.len() - suffix@.len()) == suffix@),
{
    if s.len() < suffix.len() {
        return false;
    }
    let slen = s.len();
    let off = slen - suffix.len();
    let n = suffix.len();
    let mut i: usize = 0;
    while i < n
        invariant
            n == suffix@.len(),
            slen == s@.len(),
            off + n == slen,
            i <= n,
            forall|j: int| 0 <= j < i ==> s@[off + j] == suffix@[j],
        decreases n - i,
    {
        if s[off + i] != suffix[i] {
            assert(s@.skip(off as int)[i as int] != suffix@[i as int]);
            return false;
        }
        i = i + 1;
    }
    assert(s@.skip(off as int) =~= suffix@);
    true
}

fn copy_option(t: &Option<String>) -> (r: String)
    requires
        t is Some,
    ensures
        r@ == t->0@,
{
    match t {
        Some(s) => s.clone(),
        None => String::new(),
    }
}

/// Length of the file name without a trailing ".mp3"/".MP3".
fn stem_len(chars: &Vec<char>) -> (n: usize)
    ensures
        n <= chars@.len(),
        strip_mp3(chars@) == chars@.take(n as int),
{
    let lower = chars_of(".mp3");
    let upper = chars_of(".MP3");
    proof {
        reveal_strlit(".mp3");
        reveal_strlit(".MP3");
    }
    if has_suffix(chars, &lower) || has_suffix(chars, &upper) {
        assert(strip_mp3(chars@) =~= chars@.take(chars@.len() - 4));
        chars.len() - 4
    } else {
        assert(chars@.take(chars@.len() as int) =~= chars@);
        chars.len()
    }
}

/// Index of the first '-' among the first `n` characters (`n` when none).
fn find_dash(chars: &Vec<char>, n: usize) -> (d: usize)
    requires
        n <= chars@.len(),
    ensures
        d <= n,
        first_dash(chars@.take(n as int)) == if d < n { Some(d as int) } else { None::<int> },
{
    let ghost s = chars@.take(n as int);
    let mut d: usize = 0;
    while d < n && chars[d] != '-'
        invariant
            d <= n <= chars@.len(),
            s == chars@.take(n as int),
            forall|j: int| 0 <= j < d ==> s[j] != '-',
        decreases n - d,
    {
        d = d + 1;
    }
    proof {
        if d < n {
            assert(s[d as int] == '-');
            let k = choose|k: int| 0 <= k < s.len() && s[k] == '-' && forall|j: int| 0 <= j < k ==> s[j] != '-';
            if k < d {
                assert(s[k] != '-');
            }
            if d < k {
                assert(s[d as int] != '-');
            }
        } else {
            if exists|i: int| 0 <= i < s.len() && s[i] == '-' && forall|j: int| 0 <= j < i ==> s[j] != '-' {
                let k = choose|i: int| 0 <= i < s.len() && s[i] == '-' && forall|j: int| 0 <= j < i ==> s[j] != '-';
                assert(s[k] != '-');
            }
        }
    }
    d
}

/// The first `n` characters as a string.
fn prefix_string(chars: &Vec<char>, n: usize) -> (s: String)
    requires
        n <= chars@.len(),
    ensures
        s@ == chars@.take(n as int),
{
    let mut v: Vec<char> = Vec::new();
    let mut i: usize = 0;
    while i < n
        invariant
            i <= n <= chars@.len(),
            v@ == chars@.take(i as int),
        decreases n - i,
    {
        v.push(chars[i]);
        assert(v@ =~= chars@.take(i + 1));
        i = i + 1;
    }
    string_from_chars(&v)
}

/// Resolve title and artist from ID3 metadata, falling back to the
/// "Artist - Title" file-name pattern (after dropping ".mp3"/".MP3"), and
/// then to the file name as title and "Unknown" as artist.
pub fn resolve_track_info(metadata: &TrackMetadata, file_name: &str) -> (r: (String, String))
    ensures
        (r.0@, r.1@) == resolved_info(opt_view(metadata.title), opt_view(metadata.artist), file_name@),
        tag_usable(opt_view(metadata.title)) ==> r.0@ == opt_view(metadata.title)->0,
        tag_usable(opt_view(metadata.artist)) ==> r.1@ == opt_view(metadata.artist)->0,
{
    let has_title = usable(&metadata.title);
    let has_artist = usable(&metadata.artist);
    if has_title && has_artist {
        return (copy_option(&metadata.title), copy_option(&metadata.artist));
    }
    let chars = chars_of(file_name);
    let n = stem_len(&chars);
    let ghost stem = strip_mp3(file_name@);
    let d = find_dash(&chars, n);
    if d < n {
        let left = trim_range(&chars, 0, d);
        let right = trim_range(&chars, d + 1, n);
        assert(chars@.subrange(0, d as int) =~= stem.take(d as int));
        assert(chars@.subrange(d + 1, n as int) =~= stem.skip(d + 1));
        if left.len() > 0 && right.len() > 0 {
            let title = if has_title {
                copy_option(&metadata.title)
            } else {
                string_from_chars(&right)
            };
            let artist = if has_artist {
                copy_option(&metadata.artist)
            } else {
                string_from_chars(&left)
            };
            return (title, artist);
        }
    }
    let title = if has_title {
        copy_option(&metadata.title)
    } else {
        prefix_string(&chars, n)
    };
    let artist = if has_artist {
        copy_option(&metadata.artist)
    } else {
        proof {
            reveal_strlit("Unknown");
        }
        String::from_str("Unknown")
    };
    (title, artist)
}

// ── ID3 tags ──────────────────────────────────────────────────────────────

/// What an ID3 tag names, as far as track metadata goes.
#[derive(Clone, Copy, Debug, PartialEq, Eq, Structural)]
pub enum TagKind {
    /// The track title.
    Title,
    /// The artist or the album artist.
    Artist,
    /// Anything else.
    Other,
}

/// The (kind, text) of each tag of `v`.
pub open spec fn tag_views(v: Seq<(TagKind, String)>) -> Seq<(TagKind, Seq<char>)> {
    v.map_values(|t: (TagKind, String)| (t.0, t.1@))
}

/// The (key name, text) of each tag of `v`.
pub open spec fn raw_tag_views(v: Seq<(String, String)>) -> Seq<(Seq<char>, Seq<char>)> {
    v.map_values(|t: (String, String)| (t.0@, t.1@))
}

/// The tags of the current revision of the metadata that symphonia finds
/// while probing MP3 bytes, each as the `Debug` text of its optional
/// standard key and its text; no value when the bytes are not recognised
/// as a media file.
pub uninterp spec fn mp3_probed_tags(data: Seq<u8>) -> Option<Seq<(Seq<char>, Seq<char>)>>;

/// The tags of the current revision of the format reader's metadata for
/// MP3 bytes, in the same form; no value when the bytes are not
/// recognised as a media file.
pub uninterp spec fn mp3_format_tags(data: Seq<u8>) -> Option<Seq<(Seq<char>, Seq<char>)>>;

/// Offset of the restrictions byte of an ID3v2.4 tag starting at `t`
/// whose extended-header flags byte is `f`: after the four size bytes, the
/// flag-length byte and the flags byte come the "is update" data (one
/// length byte), then the CRC data (a length byte and five bytes), then
/// the restrictions' length byte.
pub open spec fn restrictions_len_at(t: int, f: u8) -> int {
    let p1 = t + 16;
    let p2 = if f & 0x40u8 != 0u8 { p1 + 1 } else { p1 };
    if f & 0x20u8 != 0u8 { p2 + 6 } else { p2 }
}

/// At offset `t` of `d` stands an ID3v2.4 tag header with an extended
/// header that symphonia's reader accepts up to its restrictions byte, and
/// that byte has bit 0x40 set. symphonia 0.5.5 maps that bit pattern to
/// `unreachable!()` (id3v2/mod.rs, `read_id3v2p4_extended_header`).
pub open spec fn unreadable_id3_at(d: Seq<u8>, t: int) -> bool {
    let f = d[t + 15];
    let p = restrictions_len_at(t, f);
    &&& 0 <= t
    &&& p + 1 < d.len()
    &&& d[t] == 0x49u8 && d[t + 1] == 0x44u8 && d[t + 2] == 0x33u8
    &&& d[t + 3] == 4u8 && d[t + 4] != 0xffu8 && d[t + 5] & 0x40u8 != 0u8
    &&& d[t + 14] == 1u8
    &&& (f & 0x40u8 != 0u8 ==> d[t + 16] == 1u8)
    &&& (f & 0x20u8 != 0u8 ==> d[if f & 0x40u8 != 0u8 { t + 17 } else { t + 16 }] == 5u8)
    &&& f & 0x10u8 != 0u8
    &&& d[p] == 1u8
    &&& d[p + 1] & 0x40u8 != 0u8
}

/// Some offset of `d` holds such a tag. The probe looks for ID3 tags at
/// any offset it scans, so only bytes without one are safe to probe.
pub open spec fn has_unreadable_id3(d: Seq<u8>) -> bool {
    exists|t: int| #[trigger] unreadable_id3_at(d, t)
}

/// Whether `data` holds, at some offset, an ID3v2.4 tag whose extended
/// header carries a restrictions byte with bit 0x40 set.
pub fn find_unreadable_id3(data: &[u8]) -> (r: bool)
    ensures
        r == has_unreadable_id3(data@),
{
    let n = data.len();
    let mut t: usize = 0;
    while t < n
        invariant
            n == data@.len(),
            t <= n,
            forall|u: int| 0 <= u < t ==> !#[trigger] unreadable_id3_at(data@, u),
        decreases n - t,
    {
        if n - t >= 18 && data[t] == 0x49u8 && data[t + 1] == 0x44u8 && data[t + 2] == 0x33u8
            && data[t + 3] == 4u8 && data[t + 4] != 0xffu8 && data[t + 5] & 0x40u8 != 0u8
            && data[t + 14] == 1u8 {
            let f = data[t + 15];
            let mut p: usize = t + 16;
            let mut ok = true;
            if f & 0x40u8 != 0u8 {
                ok = data[p] == 1u8;
                p = p + 1;
            }
            if ok && f & 0x20u8 != 0u8 {
                if p < n && n - p > 7 {
                    ok = data[p] == 5u8;
                    p = p + 6;
                } else {
                    ok = false;
                }
            }
            if ok && f & 0x10u8 != 0u8 && p < n - 1 && data[p] == 1u8 && data[p + 1] & 0x40u8 != 0u8 {
                assert(unreadable_id3_at(data@, t as int));
                return true;
            }
            assert(!unreadable_id3_at(data@, t as int));
        }
        t = t + 1;
    }
    false
}

/// Probe `data` with symphonia (`get_probe().format` with an "mp3"
/// extension hint and default options) and list the tags of the current
/// revision of the probed metadata: the `Debug` text of each tag's
/// `Option<StandardTagKey>` (such as "Some(TrackTitle)") and the `Display`
/// text of its value. The list depends on the bytes alone; it is named,
/// not described. symphonia panics on an ID3v2.4 restrictions byte with
/// bit 0x40 set, so such bytes are excluded.
#[verifier::external_body]
fn read_probed_tags(data: &[u8]) -> (r: Option<Vec<(String, String)>>)
    requires
        !has_unreadable_id3(data@),
    ensures
        match r {
            None => mp3_probed_tags(data@) is None,
            Some(v) => mp3_probed_tags(data@) == Some(raw_tag_views(v@)),
        },
{
    let mss = symphonia::core::io::MediaSourceStream::new(Box::new(Cursor::new(data.to_vec())), Default::default());
    let mut hint = symphonia::core::probe::Hint::new();
    hint.with_extension("mp3");
    let mut p = symphonia::default::get_probe().format(&hint, mss, &Default::default(), &Default::default()).ok()?;
    let pair = |t: &symphonia::core::meta::Tag| (format!("{:?}", t.std_key), t.value.to_string());
    Some(p.metadata.get().and_then(|m| m.current().map(|r| r.tags().iter().map(pair).collect())).unwrap_or_default())
}

/// Probe `data` as `read_probed_tags` does and list, in the same form, the
/// tags of the current revision of the format reader's own metadata
/// (`FormatReader::metadata`). The list depends on the bytes alone; it is
/// named, not described. Bytes that make the probe panic are excluded, as
/// for `read_probed_tags`.
#[verifier::external_body]
fn read_format_tags(data: &[u8]) -> (r: Option<Vec<(String, String)>>)
    requires
        !has_unreadable_id3(data@),
    ensures
        match r {
            None => mp3_format_tags(data@) is None,
            Some(v) => mp3_format_tags(data@) == Some(raw_tag_views(v@)),
        },
{
    let mss = symphonia::core::io::MediaSourceStream::new(Box::new(Cursor::new(data.to_vec())), Default::default());
    let mut hint = symphonia::core::probe::Hint::new();
    hint.with_extension("mp3");
    let mut p = symphonia::default::get_probe().format(&hint, mss, &Default::default(), &Default::default()).ok()?;
    let pair = |t: &symphonia::core::meta::Tag| (format!("{:?}", t.std_key), t.value.to_string());
    Some(p.format.metadata().current().map(|r| r.tags().iter().map(pair).collect()).unwrap_or_default())
}

/// The kind of a tag from the text of its optional standard key.
pub open spec fn kind_of_key(key: Seq<char>) -> TagKind {
    if key == "Some(TrackTitle)"@ {
        TagKind::Title
    } else if key == "Some(Artist)"@ || key == "Some(AlbumArtist)"@ {
        TagKind::Artist
    } else {
        TagKind::Other
    }
}

/// The (kind, text) of each raw tag.
pub open spec fn classify(v: Seq<(Seq<char>, Seq<char>)>) -> Seq<(TagKind, Seq<char>)> {
    v.map_values(|t: (Seq<char>, Seq<char>)| (kind_of_key(t.0), t.1))
}

/// The kind of a tag from the text of its optional standard key.
pub fn tag_kind(key: &str) -> (k: TagKind)
    ensures
        k == kind_of_key(key@),
{
    let c = chars_of(key);
    if seq_equal(&c, &chars_of("Some(TrackTitle)")) {
        TagKind::Title
    } else if seq_equal(&c, &chars_of("Some(Artist)")) || seq_equal(&c, &chars_of("Some(AlbumArtist)")) {
        TagKind::Artist
    } else {
        TagKind::Other
    }
}

/// Each raw tag with its kind.
pub fn classify_tags(raw: &Vec<(String, String)>) -> (r: Vec<(TagKind, String)>)
    ensures
        tag_views(r@) == classify(raw_tag_views(raw@)),
{
    let n = raw.len();
    let mut out: Vec<(TagKind, String)> = Vec::new();
    let mut i: usize = 0;
    while i < n
        invariant
            n == raw@.len(),
            i <= n,
            out@.len() == i,
            forall|j: int|
                0 <= j < i ==> out@[j].0 == kind_of_key(raw@[j].0@) && out@[j].1@ == raw@[j].1@,
        decreases n - i,
    {
        let k = tag_kind(raw[i].0.as_str());
        out.push((k, raw[i].1.clone()));
        i = i + 1;
    }
    assert(tag_views(out@) =~= classify(raw_tag_views(raw@)));
    out
}

/// The text of the first non-empty tag of kind `k` in `s`.
pub open spec fn first_value(s: Seq<(TagKind, Seq<char>)>, k: TagKind) -> Option<Seq<char>>
    decreases s.len(),
{
    if s.len() == 0 {
        None
    } else if s[0].0 == k && s[0].1.len() > 0 {
        Some(s[0].1)
    } else {
        first_value(s.drop_first(), k)
    }
}

/// The text of the last non-empty tag of kind `k` in `s`.
pub open spec fn last_value(s: Seq<(TagKind, Seq<char>)>, k: TagKind) -> Option<Seq<char>>
    decreases s.len(),
{
    if s.len() == 0 {
        None
    } else if s.last().0 == k && s.last().1.len() > 0 {
        Some(s.last().1)
    } else {
        last_value(s.drop_last(), k)
    }
}

/// The (title, artist) read from the two tag lists: the title is the last
/// non-empty title of the first list, else the first non-empty title of
/// the second; the artist is the first non-empty artist of the first
/// list, else of the second.
pub open spec fn pick_metadata(first: Seq<(TagKind, Seq<char>)>, second: Seq<(TagKind, Seq<char>)>) -> (
    Option<Seq<char>>,
    Option<Seq<char>>,
) {
    (
        match last_value(first, TagKind::Title) {
            Some(t) => Some(t),
            None => first_value(second, TagKind::Title),
        },
        match first_value(first, TagKind::Artist) {
            Some(a) => Some(a),
            None => first_value(second, TagKind::Artist),
        },
    )
}

fn last_tag_value(tags: &Vec<(TagKind, String)>, kind: TagKind) -> (r: Option<String>)
    ensures
        opt_view(r) == last_value(tag_views(tags@), kind),
{
    let ghost tv = tag_views(tags@);
    let n = tags.len();
    let mut cur: Option<String> = None;
    let mut i: usize = 0;
    while i < n
        invariant
            n == tags@.len(),
            tv == tag_views(tags@),
            i <= n,
            opt_view(cur) == last_value(tv.take(i as int), kind),
        decreases n - i,
    {
        assert(tv.take(i + 1).drop_last() =~= tv.take(i as int));
        assert(tv.take(i + 1).last() == tv[i as int]);
        if tags[i].0 == kind && tags[i].1.as_str().unicode_len() > 0 {
            cur = Some(tags[i].1.clone());
        }
        i = i + 1;
    }
    assert(tv.take(n as int) =~= tv);
    cur
}

fn first_tag_value(tags: &Vec<(TagKind, String)>, kind: TagKind) -> (r: Option<String>)
    ensures
        opt_view(r) == first_value(tag_views(tags@), kind),
{
    let ghost tv = tag_views(tags@);
    let n = tags.len();
    let mut i: usize = 0;
    assert(tv.skip(0) =~= tv);
    while i < n
        invariant
            n == tags@.len(),
            tv == tag_views(tags@),
            i <= n,
            first_value(tv, kind) == first_value(tv.skip(i as int), kind),
        decreases n - i,
    {
        assert(tv.skip(i as int).drop_first() =~= tv.skip(i + 1));
        assert(tv.skip(i as int)[0] == tv[i as int]);
        if tags[i].0 == kind && tags[i].1.as_str().unicode_len() > 0 {
            return Some(tags[i].1.clone());
        }
        i = i + 1;
    }
    assert(tv.skip(n as int) =~= Seq::<(TagKind, Seq<char>)>::empty());
    None
}

/// Track metadata from the tags of the probed metadata (`first`) and of
/// the format reader (`second`), as `pick_metadata` says.
pub fn pick_track_metadata(first: &Vec<(TagKind, String)>, second: &Vec<(TagKind, String)>) -> (m:
    TrackMetadata)
    ensures
        (opt_view(m.title), opt_view(m.artist)) == pick_metadata(tag_views(first@), tag_views(second@)),
{
    let title = match last_tag_value(first, TagKind::Title) {
        Some(t) => Some(t),
        None => first_tag_value(second, TagKind::Title),
    };
    let artist = match first_tag_value(first, TagKind::Artist) {
        Some(a) => Some(a),
        None => first_tag_value(second, TagKind::Artist),
    };
    TrackMetadata { title, artist }
}

/// Extract the title and artist from the ID3 tags of MP3 bytes; both are
/// missing when the bytes are not recognised as a media file, or hold an
/// ID3 tag that the tag reader cannot take (see `has_unreadable_id3`).
pub fn parse_mp3_metadata(data: &[u8]) -> (m: TrackMetadata)
    ensures
        has_unreadable_id3(data@) ==> m.title is None && m.artist is None,
        !has_unreadable_id3(data@) ==> match mp3_probed_tags(data@) {
            None => m.title is None && m.artist is None,
            Some(a) => (opt_view(m.title), opt_view(m.artist)) == pick_metadata(
                classify(a),
                match mp3_format_tags(data@) {
                    Some(b) => classify(b),
                    None => Seq::empty(),
                },
            ),
        },
{
    if find_unreadable_id3(data) {
        return TrackMetadata { title: None, artist: None };
    }
    let first = match read_probed_tags(data) {
        None => {
            return TrackMetadata { title: None, artist: None };
        },
        Some(a) => classify_tags(&a),
    };
    let none: Vec<(TagKind, String)> = Vec::new();
    assert(tag_views(none@) =~= Seq::<(TagKind, Seq<char>)>::empty());
    let found = pick_track_metadata(&first, &none);
    if found.title.is_some() && found.artist.is_some() {
        return found;
    }
    let second = match read_format_tags(data) {
        Some(b) => classify_tags(&b),
        None => none,
    };
    pick_track_metadata(&first, &second)
}

/// A usable title tag is always the resolved title, and a usable artist
/// tag always the resolved artist, whatever the other tag and the file
/// name: the file name only fills in what the tags lack.
pub proof fn law_usable_tags_are_kept(title: Option<Seq<char>>, artist: Option<Seq<char>>, file_name: Seq<char>)
    ensures
        tag_usable(title) ==> resolved_info(title, artist, file_name).0 == title->0,
        tag_usable(artist) ==> resolved_info(title, artist, file_name).1 == artist->0,
{
}

} // verus!
