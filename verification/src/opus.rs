//! Opus audio metadata: which content types are Opus, which tags an Opus
//! stream carries, and how tag keys and values are cleaned up for display.
use vstd::prelude::*;
use crate::ogg::{bytes_occur_at, bytes_occur_at_index, is_plain_ogg, is_plain_ogg_body};
use crate::text::{
    is_ascii_lower, is_ascii_upper, is_whitespace, is_ws, join,
    chars_of, contains, contains_chars, drop_control_chars, drop_controls, eq_chars, lower_chars,
    lower_seq, starts_with, starts_with_chars, string_of, trim, trim_chars, upper_chars, upper_seq,
};

verus! {

/// Longest tag value, in characters, that `sanitize_tag` keeps.
pub const SANITIZED_TAG_MAX_LEN: usize = 200;

/// A media type names Opus audio: after ASCII lowercasing it is `audio/opus`,
/// starts with `audio/opus;`, or mentions both `audio/ogg` and `opus`.
pub open spec fn is_opus_type(content_type: Seq<char>) -> bool {
    let l = lower_seq(content_type);
    ||| l == "audio/opus"@
    ||| starts_with(l, "audio/opus;"@)
    ||| (contains(l, "audio/ogg"@) && contains(l, "opus"@))
}

pub fn is_opus_content_type(content_type: &str) -> (r: bool)
    ensures
        r == is_opus_type(content_type@),
{
    let lower = lower_chars(&chars_of(content_type));
    eq_chars(&lower, &chars_of("audio/opus"))
        || starts_with_chars(&lower, &chars_of("audio/opus;"))
        || (contains_chars(&lower, &chars_of("audio/ogg")) && contains_chars(&lower, &chars_of("opus")))
}

/// A tag key names embedded picture data: after ASCII uppercasing it is
/// `METADATA_BLOCK_PICTURE` or contains `PICTURE`.
pub open spec fn is_picture_key(key: Seq<char>) -> bool {
    let u = upper_seq(key);
    u == "METADATA_BLOCK_PICTURE"@ || contains(u, "PICTURE"@)
}

pub fn is_picture_tag(key: &str) -> (r: bool)
    ensures
        r == is_picture_key(key@),
{
    let upper = upper_chars(&chars_of(key));
    eq_chars(&upper, &chars_of("METADATA_BLOCK_PICTURE")) || contains_chars(&upper, &chars_of("PICTURE"))
}

/// A tag value as displayed: ASCII control characters removed, surrounding
/// whitespace trimmed, and cut to its first `SANITIZED_TAG_MAX_LEN` characters.
pub open spec fn sanitized(raw: Seq<char>) -> Seq<char> {
    let t = trim(drop_controls(raw));
    if t.len() <= SANITIZED_TAG_MAX_LEN {
        t
    } else {
        t.take(SANITIZED_TAG_MAX_LEN as int)
    }
}

pub fn sanitize_tag(raw: String) -> (r: String)
    ensures
        r@ == sanitized(raw@),
{
    let trimmed = trim_chars(&drop_control_chars(&chars_of(raw.as_str())));
    if trimmed.len() <= SANITIZED_TAG_MAX_LEN {
        return string_of(&trimmed);
    }
    let mut out: Vec<char> = Vec::new();
    let mut i: usize = 0;
    while i < SANITIZED_TAG_MAX_LEN
        invariant
            i <= SANITIZED_TAG_MAX_LEN < trimmed.len(),
            out@ == trimmed@.take(i as int),
        decreases SANITIZED_TAG_MAX_LEN - i,
    {
        out.push(trimmed[i]);
        i = i + 1;
        assert(out@ =~= trimmed@.take(i as int));
    }
    string_of(&out)
}

/// The (key, value) text of each tag in the current metadata revision of the
/// format reader that symphonia's probe picks for `body`, in the order
/// reported; empty when no reader accepts `body`.
pub uninterp spec fn probed_tags(body: Seq<u8>) -> Seq<(Seq<char>, Seq<char>)>;

/// The marker `fLaC` that starts a native FLAC stream.
pub open spec fn flac_stream_marker() -> Seq<u8> {
    seq![0x66u8, 0x4cu8, 0x61u8, 0x43u8]
}

/// The bodies that are handed to symphonia: a plain Ogg stream
/// (`is_plain_ogg_body`), or a native FLAC stream from its first byte.
pub open spec fn is_probed_body(body: Seq<u8>) -> bool {
    is_plain_ogg_body(body) || bytes_occur_at(body, flac_stream_marker(), 0)
}

/// Whether `body` is one that is handed to symphonia.
pub fn is_probed_input(body: &[u8]) -> (r: bool)
    ensures
        r == is_probed_body(body@),
{
    let flac: [u8; 4] = [0x66, 0x4c, 0x61, 0x43];
    assert(flac@ =~= flac_stream_marker());
    if body.len() >= 4 && bytes_occur_at_index(body, flac.as_slice(), 0) {
        return true;
    }
    is_plain_ogg(body)
}

/// Probes `body` with symphonia's default probe (`symphonia::default::get_probe`
/// and `Probe::format`) and lists the key and the displayed value of every tag
/// in the current metadata revision of the format reader it picks. Trusted:
/// the list is `probed_tags(body)`; a body that no reader accepts, or one
/// without metadata, gives an empty list.
///
/// The requirement admits the bodies on which the call does not panic. The
/// probe picks its reader by the marker at offset 0 (`fLaC`, `RIFF`, `OggS`,
/// the Matroska id `1A 45 DF A3` and `ID3` share no first byte), so:
/// - a native FLAC body runs the FLAC reader, which reads each metadata block
///   through a reader bounded by the block's length and checks the fields of
///   the frame header it searches for;
/// - a plain Ogg body (`is_plain_ogg_body`) runs the Ogg reader with only the
///   Opus, Ogg FLAC and null stream mappers, whose lengths and table indices
///   are checked, and with every page naming a stream set up at the start.
///
/// Left out, because the call can panic on some of them: Ogg bodies with a
/// Vorbis stream (the Vorbis mapper's `lookup1_values` asserts on a setup
/// header codebook of zero entries and zero dimensions); Ogg bodies with a page
/// of a stream not begun at the start, such as chained streams (the reader then
/// bisects for the first stream's end and computes `byte_range_end -
/// reader.pos()` with the position past the bound, an overflow); WAVE bodies
/// (an ADPCM format chunk makes the reader compute `block_align - 7 *
/// n_channels` unchecked, an overflow); Matroska bodies (the reader unwraps
/// `u32::try_from` of the timestamp scale and builds a `TimeBase` that panics on
/// a zero scale); and bodies that start with no marker, on which the probe
/// searches further in and may first run the ID3v2 reader, which was not read.
/// Not stated: comment, picture and packet lengths read from the stream size
/// allocations of up to 4 GiB, whose success depends on the machine.
#[verifier::external_body]
fn probe_tags(body: &[u8]) -> (r: Vec<(String, String)>)
    requires
        is_probed_body(body@),
    ensures
        r.deep_view() == probed_tags(body@),
{
    let source = symphonia::core::io::MediaSourceStream::new(Box::new(std::io::Cursor::new(body.to_vec())), Default::default());
    let mut hint = symphonia::core::probe::Hint::new();
    hint.with_extension("ogg");
    let probe = symphonia::default::get_probe();
    let Ok(mut probed) = probe.format(&hint, source, &Default::default(), &Default::default()) else {
        return Vec::new();
    };
    let queue = probed.format.metadata();
    let Some(revision) = queue.current() else { return Vec::new() };
    revision.tags().iter().map(|tag| (tag.key.clone(), tag.value.to_string())).collect()
}

/// The tags worth showing: keys trimmed, and tags whose trimmed key is empty or
/// names picture data left out; values as given.
pub open spec fn text_tags(probed: Seq<(Seq<char>, Seq<char>)>) -> Seq<(Seq<char>, Seq<char>)>
    decreases probed.len(),
{
    if probed.len() == 0 {
        Seq::empty()
    } else {
        let rest = text_tags(probed.drop_last());
        let key = trim(probed.last().0);
        if key.len() == 0 || is_picture_key(key) {
            rest
        } else {
            rest.push((key, probed.last().1))
        }
    }
}

/// Keeps the tags worth showing from what the demuxer reported.
pub fn raw_tags_from(probed: Vec<(String, String)>) -> (r: Vec<(String, String)>)
    ensures
        r.deep_view() == text_tags(probed.deep_view()),
{
    let mut out: Vec<(String, String)> = Vec::new();
    let mut i: usize = 0;
    while i < probed.len()
        invariant
            i <= probed.len(),
            out.deep_view() == text_tags(probed.deep_view().take(i as int)),
        decreases probed.len() - i,
    {
        assert(probed.deep_view().take(i + 1).drop_last() =~= probed.deep_view().take(i as int));
        let ghost entry = probed.deep_view()[i as int];
        assert(probed.deep_view().take(i + 1).last() == entry);
        assert(entry.0 == probed@[i as int].0@ && entry.1 == probed@[i as int].1@);
        let trimmed = trim_chars(&chars_of(probed[i].0.as_str()));
        let key = string_of(&trimmed);
        if !key.as_str().is_empty() && !is_picture_tag(key.as_str()) {
            let value = probed[i].1.clone();
            let ghost before = out.deep_view();
            out.push((key, value));
            assert(out.deep_view() =~= before.push((key@, value@)));
        }
        i = i + 1;
    }
    assert(probed.deep_view().take(probed.len() as int) =~= probed.deep_view());
    out
}

/// The tags reported for a body: those the demuxer reports for a body that is
/// handed to it, none for any other.
pub open spec fn body_tags(body: Seq<u8>) -> Seq<(Seq<char>, Seq<char>)> {
    if is_probed_body(body) {
        text_tags(probed_tags(body))
    } else {
        Seq::empty()
    }
}

/// The tags of an audio stream worth showing, keys trimmed, pictures left
/// out, as the demuxer reports them for a body it is handed
/// (`is_probed_body`); none for any other body.
pub fn raw_tags(body: &[u8]) -> (r: Vec<(String, String)>)
    ensures
        r.deep_view() == body_tags(body@),
{
    if is_probed_input(body) {
        raw_tags_from(probe_tags(body))
    } else {
        let r: Vec<(String, String)> = Vec::new();
        assert(r.deep_view() =~= Seq::<(Seq<char>, Seq<char>)>::empty());
        r
    }
}


/// The text held by an optional string.
pub open spec fn opt_text(o: Option<String>) -> Option<Seq<char>> {
    match o {
        Some(s) => Some(s@),
        None => None,
    }
}

/// The sanitized value of the first tag whose key equals `target` up to ASCII
/// case and whose sanitized value is not empty.
pub open spec fn first_match(tags: Seq<(Seq<char>, Seq<char>)>, target: Seq<char>) -> Option<Seq<char>>
    decreases tags.len(),
{
    if tags.len() == 0 {
        None
    } else if lower_seq(tags[0].0) == lower_seq(target) && sanitized(tags[0].1).len() > 0 {
        Some(sanitized(tags[0].1))
    } else {
        first_match(tags.drop_first(), target)
    }
}

/// Rust's `str::eq_ignore_ascii_case`.
pub fn eq_ignore_ascii_case(a: &str, b: &str) -> (r: bool)
    ensures
        r == (lower_seq(a@) == lower_seq(b@)),
{
    eq_chars(&lower_chars(&chars_of(a)), &lower_chars(&chars_of(b)))
}

/// The sanitized value of the first of `tags` whose key is `target`, ignoring
/// ASCII case, and whose sanitized value is not empty.
pub fn find_tag_in(tags: Vec<(String, String)>, target: &str) -> (r: Option<String>)
    ensures
        opt_text(r) == first_match(tags.deep_view(), target@),
{
    let mut i: usize = 0;
    assert(tags.deep_view().skip(0) =~= tags.deep_view());
    while i < tags.len()
        invariant
            i <= tags.len(),
            first_match(tags.deep_view(), target@) == first_match(tags.deep_view().skip(i as int), target@),
        decreases tags.len() - i,
    {
        let ghost rest = tags.deep_view().skip(i as int);
        assert(rest[0] == tags.deep_view()[i as int]);
        assert(rest.drop_first() =~= tags.deep_view().skip(i + 1));
        if eq_ignore_ascii_case(tags[i].0.as_str(), target) {
            let sanitized = sanitize_tag(tags[i].1.clone());
            if !sanitized.as_str().is_empty() {
                return Some(sanitized);
            }
        }
        i = i + 1;
    }
    assert(tags.deep_view().skip(i as int) =~= Seq::<(Seq<char>, Seq<char>)>::empty());
    None
}

fn find_tag(body: &[u8], target: &str) -> (r: Option<String>)
    ensures
        opt_text(r) == first_match(body_tags(body@), target@),
{
    find_tag_in(raw_tags(body), target)
}

/// The title tag of an Opus stream, sanitized.
pub fn title(body: &[u8]) -> (r: Option<String>)
    ensures
        opt_text(r) == first_match(body_tags(body@), "title"@),
{
    find_tag(body, "title")
}

/// The artist tag of an Opus stream, sanitized.
pub fn artist(body: &[u8]) -> (r: Option<String>)
    ensures
        opt_text(r) == first_match(body_tags(body@), "artist"@),
{
    find_tag(body, "artist")
}


/// Characters that `normalize_opus_tag_key` turns into word breaks.
pub open spec fn is_key_separator(c: char) -> bool {
    c == '_' || c == '-' || c == '.'
}

/// A key with a space put before each ASCII uppercase letter that follows an
/// ASCII lowercase letter, and `_`, `-` and `.` replaced by spaces.
pub open spec fn expand_key(s: Seq<char>) -> Seq<char>
    decreases s.len(),
{
    if s.len() == 0 {
        Seq::empty()
    } else {
        let prev = s.drop_last();
        let c = s.last();
        let gap = if is_ascii_upper(c) && prev.len() > 0 && is_ascii_lower(prev.last()) {
            seq![' ']
        } else {
            Seq::<char>::empty()
        };
        expand_key(prev) + gap + (if is_key_separator(c) { seq![' '] } else { seq![c] })
    }
}

/// Rust's `str::split_whitespace`: the maximal runs of non-whitespace characters.
pub open spec fn words(s: Seq<char>) -> Seq<Seq<char>>
    decreases s.len(),
{
    if s.len() == 0 {
        Seq::empty()
    } else {
        let w = words(s.drop_last());
        let c = s.last();
        if is_ws(c) {
            w
        } else if s.len() >= 2 && !is_ws(s[s.len() - 2]) {
            w.drop_last().push(w.last().push(c))
        } else {
            w.push(seq![c])
        }
    }
}

/// Each word ASCII-lowercased.
pub open spec fn lower_words(ws: Seq<Seq<char>>) -> Seq<Seq<char>> {
    ws.map_values(|w: Seq<char>| lower_seq(w))
}

/// The characters of `s` other than `' '`.
pub open spec fn without_spaces(s: Seq<char>) -> Seq<char>
    decreases s.len(),
{
    if s.len() == 0 {
        s
    } else if s.last() == ' ' {
        without_spaces(s.drop_last())
    } else {
        without_spaces(s.drop_last()).push(s.last())
    }
}

/// A tag key in words: trimmed, expanded, split at whitespace, each word
/// ASCII-lowercased, joined by single spaces.
pub open spec fn key_in_words(key: Seq<char>) -> Seq<char> {
    join(lower_words(words(expand_key(trim(key)))), seq![' '])
}

/// The canonical field name for a key whose words, run together, are
/// `compact`; `normalized` for any other key.
#[verifier::opaque]
pub open spec fn canonical_key(compact: Seq<char>, normalized: Seq<char>) -> Seq<char> {
    if compact == "title"@ {
        "title"@
    } else if compact == "artist"@ {
        "artist"@
    } else if compact == "album"@ {
        "album"@
    } else if compact == "albumartist"@ {
        "album artist"@
    } else if compact == "date"@ || compact == "year"@ {
        "date"@
    } else if compact == "track"@ || compact == "tracknumber"@ {
        "track number"@
    } else if compact == "genre"@ {
        "genre"@
    } else if compact == "composer"@ {
        "composer"@
    } else if compact == "copyright"@ {
        "copyright"@
    } else if compact == "description"@ || compact == "comment"@ {
        "description"@
    } else if compact == "producer"@ {
        "producer"@
    } else if compact == "engineer"@ {
        "engineer"@
    } else if compact == "mixer"@ {
        "mixer"@
    } else if compact == "assistantengineer"@ {
        "assistant engineer"@
    } else if compact == "songwriter"@ || compact == "lyricist"@ {
        "songwriter"@
    } else if compact == "mastering"@ {
        "mastering"@
    } else if compact == "inscribing"@ {
        "inscribing"@
    } else if compact == "technology"@ {
        "technology"@
    } else {
        normalized
    }
}

/// What `normalize_opus_tag_key` makes of a key.
pub open spec fn normalized_key(key: Seq<char>) -> Seq<char> {
    canonical_key(without_spaces(key_in_words(key)), key_in_words(key))
}

fn is_text(v: &Vec<char>, t: &str) -> (r: bool)
    ensures
        r == (v@ == t@),
{
    eq_chars(v, &chars_of(t))
}

fn expand_chars(v: &Vec<char>) -> (r: Vec<char>)
    ensures
        r@ == expand_key(v@),
{
    let mut out: Vec<char> = Vec::new();
    let mut previous_was_lowercase = false;
    let mut i: usize = 0;
    while i < v.len()
        invariant
            i <= v.len(),
            out@ == expand_key(v@.take(i as int)),
            previous_was_lowercase == (i > 0 && is_ascii_lower(v@[i - 1])),
        decreases v.len() - i,
    {
        let c = v[i];
        let ghost before = out@;
        assert(v@.take(i + 1).drop_last() =~= v@.take(i as int));
        if 'A' <= c && c <= 'Z' && previous_was_lowercase {
            out.push(' ');
        }
        if c == '_' || c == '-' || c == '.' {
            out.push(' ');
        } else {
            out.push(c);
        }
        previous_was_lowercase = 'a' <= c && c <= 'z';
        i = i + 1;
        assert(out@ =~= expand_key(v@.take(i as int)));
    }
    assert(v@.take(v.len() as int) =~= v@);
    out
}

fn split_words(v: &Vec<char>) -> (r: Vec<Vec<char>>)
    ensures
        r.deep_view() == words(v@),
{
    let mut out: Vec<Vec<char>> = Vec::new();
    let mut i: usize = 0;
    while i < v.len()
        invariant
            i <= v.len(),
            out.deep_view() == words(v@.take(i as int)),
        decreases v.len() - i,
    {
        let c = v[i];
        let ghost before = out.deep_view();
        assert(v@.take(i + 1).drop_last() =~= v@.take(i as int));
        if is_whitespace(c) {
        } else if i >= 1 && !is_whitespace(v[i - 1]) {
            assert(v@.take(i as int).last() == v@[i - 1]);
            assert(before.len() > 0);
            let mut last = out.pop().unwrap();
            assert(out.deep_view() =~= before.drop_last());
            assert(last@ == before.last());
            last.push(c);
            let ghost pushed = last@;
            out.push(last);
            let ghost expected = before.drop_last().push(before.last().push(c));
            assert forall|j: int| 0 <= j < expected.len() implies #[trigger] out.deep_view()[j] == expected[j] by {
                assert(out.deep_view()[j] =~= out@[j]@);
            }
            assert(out.deep_view() =~= expected);
        } else {
            let word = vec![c];
            assert(word@ =~= seq![c]);
            out.push(word);
            let ghost expected = before.push(seq![c]);
            assert forall|j: int| 0 <= j < expected.len() implies #[trigger] out.deep_view()[j] == expected[j] by {
                assert(out.deep_view()[j] =~= out@[j]@);
            }
            assert(out.deep_view() =~= expected);
        }
        i = i + 1;
    }
    assert(v@.take(v.len() as int) =~= v@);
    out
}

fn join_lower_words(ws: &Vec<Vec<char>>) -> (r: Vec<char>)
    ensures
        r@ == join(lower_words(ws.deep_view()), seq![' ']),
{
    let ghost lw = lower_words(ws.deep_view());
    let mut out: Vec<char> = Vec::new();
    let mut k: usize = 0;
    while k < ws.len()
        invariant
            k <= ws.len(),
            lw == lower_words(ws.deep_view()),
            out@ == join(lw.take(k as int), seq![' ']),
        decreases ws.len() - k,
    {
        let word = lower_chars(&ws[k]);
        assert(word@ == lw[k as int]);
        assert(lw.take(k + 1).drop_last() =~= lw.take(k as int));
        let ghost before = out@;
        if k > 0 {
            out.push(' ');
        }
        let mut j: usize = 0;
        let ghost start = out@;
        while j < word.len()
            invariant
                j <= word.len(),
                out@ == start + word@.take(j as int),
            decreases word.len() - j,
        {
            out.push(word[j]);
            j = j + 1;
            assert(out@ =~= start + word@.take(j as int));
        }
        assert(word@.take(word@.len() as int) =~= word@);
        k = k + 1;
        assert(out@ =~= join(lw.take(k as int), seq![' ']));
    }
    assert(lw.take(ws.len() as int) =~= lw);
    out
}

fn remove_spaces(v: &Vec<char>) -> (r: Vec<char>)
    ensures
        r@ == without_spaces(v@),
{
    let mut out: Vec<char> = Vec::new();
    let mut i: usize = 0;
    while i < v.len()
        invariant
            i <= v.len(),
            out@ == without_spaces(v@.take(i as int)),
        decreases v.len() - i,
    {
        assert(v@.take(i + 1).drop_last() =~= v@.take(i as int));
        if v[i] != ' ' {
            out.push(v[i]);
        }
        i = i + 1;
    }
    assert(v@.take(v.len() as int) =~= v@);
    out
}

fn canonical(compact: &Vec<char>, normalized: &Vec<char>) -> (r: String)
    ensures
        r@ == canonical_key(compact@, normalized@),
{
    reveal(canonical_key);
    if is_text(compact, "title") {
        "title".to_owned()
    } else if is_text(compact, "artist") {
        "artist".to_owned()
    } else if is_text(compact, "album") {
        "album".to_owned()
    } else if is_text(compact, "albumartist") {
        "album artist".to_owned()
    } else if is_text(compact, "date") || is_text(compact, "year") {
        "date".to_owned()
    } else if is_text(compact, "track") || is_text(compact, "tracknumber") {
        "track number".to_owned()
    } else if is_text(compact, "genre") {
        "genre".to_owned()
    } else if is_text(compact, "composer") {
        "composer".to_owned()
    } else if is_text(compact, "copyright") {
        "copyright".to_owned()
    } else if is_text(compact, "description") || is_text(compact, "comment") {
        "description".to_owned()
    } else if is_text(compact, "producer") {
        "producer".to_owned()
    } else if is_text(compact, "engineer") {
        "engineer".to_owned()
    } else if is_text(compact, "mixer") {
        "mixer".to_owned()
    } else if is_text(compact, "assistantengineer") {
        "assistant engineer".to_owned()
    } else if is_text(compact, "songwriter") || is_text(compact, "lyricist") {
        "songwriter".to_owned()
    } else if is_text(compact, "mastering") {
        "mastering".to_owned()
    } else if is_text(compact, "inscribing") {
        "inscribing".to_owned()
    } else if is_text(compact, "technology") {
        "technology".to_owned()
    } else {
        string_of(normalized)
    }
}

/// A tag key in canonical form: the name of a common field for the spellings
/// that mean it, otherwise the key's words in lowercase joined by spaces.
pub fn normalize_opus_tag_key(key: &str) -> (r: String)
    ensures
        r@ == normalized_key(key@),
{
    let trimmed = trim_chars(&chars_of(key));
    let expanded = expand_chars(&trimmed);
    let split = split_words(&expanded);
    let normalized = join_lower_words(&split);
    let compact = remove_spaces(&normalized);
    canonical(&compact, &normalized)
}

} // verus!
