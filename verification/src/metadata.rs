//! Audio metadata: the audio format from a file's first bytes, cleaned book and chapter
//! titles, suggested file names and the ID3 header size.
use vstd::prelude::*;
use crate::text::{
    chars_of, concat_of, contains, contains_exec, remove_all, remove_all_exec, starts_with,
    starts_with_exec, string_of, strip_start, strip_start_class, sub_of, trim, trim_chars,
    lemma_remove_all_clean, lemma_remove_all_distributes, lemma_remove_all_keeps_clean_text,
    lemma_strip_start_shape, lemma_trim_shape, in_class, is_ws, is_digit, class_has, CharClass,
};
use crate::xm::{clone_opt, opt_view, XmInfo, XmInfoView};

verus! {

/// Audio container formats recognised from a file header.
#[derive(Debug, Clone, Copy, PartialEq, Eq)]
pub enum AudioFormat {
    Mp3,
    M4a,
    Flac,
    Wav,
    Ogg,
    Unknown,
}

impl AudioFormat {
    /// The display name of the format.
    pub fn name(&self) -> (r: &'static str)
        ensures
            r@ == format_name(*self),
    {
        match self {
            AudioFormat::Mp3 => "MP3",
            AudioFormat::M4a => "M4A",
            AudioFormat::Flac => "FLAC",
            AudioFormat::Wav => "WAV",
            AudioFormat::Ogg => "OGG",
            AudioFormat::Unknown => "Unknown",
        }
    }
}

/// The display name of each format.
pub open spec fn format_name(f: AudioFormat) -> Seq<char> {
    match f {
        AudioFormat::Mp3 => "MP3"@,
        AudioFormat::M4a => "M4A"@,
        AudioFormat::Flac => "FLAC"@,
        AudioFormat::Wav => "WAV"@,
        AudioFormat::Ogg => "OGG"@,
        AudioFormat::Unknown => "Unknown"@,
    }
}

/// `h` begins with the four bytes `a b c d`.
pub open spec fn begins4(h: Seq<u8>, a: u8, b: u8, c: u8, d: u8) -> bool {
    h.len() >= 4 && h[0] == a && h[1] == b && h[2] == c && h[3] == d
}

/// The audio format a header announces: an ID3 tag or an MPEG frame sync (MP3), an
/// `ftyp` box at offset 4 (M4A), `fLaC` (FLAC), `RIFF` with `WAVE` at offset 8 (WAV),
/// `OggS` (OGG); anything else, or fewer than four bytes, is unknown.
pub open spec fn audio_format_of(h: Seq<u8>) -> AudioFormat {
    if h.len() < 4 {
        AudioFormat::Unknown
    } else if (h[0] == 0x49 && h[1] == 0x44 && h[2] == 0x33) || (h[0] == 0xff && (h[1] & 0xe0)
        == 0xe0) {
        AudioFormat::Mp3
    } else if h.len() >= 8 && h[4] == 0x66 && h[5] == 0x74 && h[6] == 0x79 && h[7] == 0x70 {
        AudioFormat::M4a
    } else if begins4(h, 0x66, 0x4c, 0x61, 0x43) {
        AudioFormat::Flac
    } else if begins4(h, 0x52, 0x49, 0x46, 0x46) && h.len() >= 12 && h[8] == 0x57 && h[9] == 0x41
        && h[10] == 0x56 && h[11] == 0x45 {
        AudioFormat::Wav
    } else if begins4(h, 0x4f, 0x67, 0x67, 0x53) {
        AudioFormat::Ogg
    } else {
        AudioFormat::Unknown
    }
}

/// The header bytes that are printable ASCII (0x20 to 0x7e), as lower-case characters.
pub open spec fn printable_lower(h: Seq<u8>) -> Seq<char>
    decreases h.len(),
{
    if h.len() == 0 {
        Seq::empty()
    } else {
        let r = printable_lower(h.drop_last());
        let b = h.last();
        if 0x20 <= b && b <= 0x7e {
            r.push(lower_ascii(b))
        } else {
            r
        }
    }
}

/// An ASCII byte as a character, upper-case letters lowered.
pub open spec fn lower_ascii(b: u8) -> char {
    if 65 <= b && b <= 90 {
        ((b + 32) as u8) as char
    } else {
        b as char
    }
}

/// The file extension a header's text suggests; `with_ogg` also looks for `ogg`.
pub open spec fn extension_of(h: Seq<char>, with_ogg: bool) -> Seq<char> {
    if contains(h, "m4a"@) {
        "m4a"@
    } else if contains(h, "mp3"@) {
        "mp3"@
    } else if contains(h, "flac"@) {
        "flac"@
    } else if contains(h, "wav"@) {
        "wav"@
    } else if with_ogg && contains(h, "ogg"@) {
        "ogg"@
    } else {
        "m4a"@
    }
}

/// The characters a file name may not hold.
pub open spec fn forbidden_chars() -> Seq<char> {
    seq!['\\', ':', '/', '*', '?', '"', '<', '>', '|']
}

/// `artist - album - title.ext` without the characters a file name may not hold.
pub open spec fn compose_name(
    artist: Seq<char>,
    album: Seq<char>,
    title: Seq<char>,
    ext: Seq<char>,
) -> Seq<char> {
    remove_all(
        artist + " - "@ + album + " - "@ + title + "."@ + ext,
        forbidden_chars(),
    )
}

/// The text of an optional string, or `default` when it is absent.
pub open spec fn or_default(o: Option<Seq<char>>, default: Seq<char>) -> Seq<char> {
    match o {
        Some(s) => s,
        None => default,
    }
}

/// The name `format_filename` gives.
pub open spec fn formatted_filename(info: XmInfoView, header: Seq<u8>) -> Seq<char> {
    compose_name(
        or_default(info.artist, "Unknown Artist"@),
        or_default(info.album, "Unknown Album"@),
        or_default(info.title, "Unknown Title"@),
        extension_of(printable_lower(header), true),
    )
}

/// The characters before the first `|` or `丨` (all of them when there is none).
pub open spec fn before_separator(s: Seq<char>) -> Seq<char>
    decreases s.len(),
{
    if s.len() == 0 {
        s
    } else if s[0] == '|' || s[0] == '丨' {
        Seq::empty()
    } else {
        seq![s[0]] + before_separator(s.drop_first())
    }
}

/// A book title without the part after a `|` or `丨` separator, trimmed.
pub open spec fn clean_book_title_of(t: Seq<char>) -> Seq<char> {
    trim(before_separator(t))
}

/// `s` without `p` in front, when it is there.
pub open spec fn after_prefix(s: Seq<char>, p: Seq<char>) -> Seq<char> {
    s.subrange(p.len() as int, s.len() as int)
}

/// The chapter title once the book title is taken off the front (then trimmed).
pub open spec fn chapter_step_book(t: Seq<char>, book: Seq<char>) -> Seq<char> {
    let c0 = trim(t);
    if book.len() > 0 && starts_with(c0, book) {
        trim(after_prefix(c0, book))
    } else {
        c0
    }
}

/// An ASCII letter.
pub open spec fn is_ascii_letter(c: char) -> bool {
    ('a' <= c && c <= 'z') || ('A' <= c && c <= 'Z')
}

/// `c` starts with the word `p` as an episode lead-in: `p` not followed by a letter (so
/// `Epic` is no lead-in, while `Ep3`, `Ep 3` and `Ep.3` are).
pub open spec fn episode_lead(c: Seq<char>, p: Seq<char>) -> bool {
    starts_with(c, p) && (c.len() == p.len() || !is_ascii_letter(c[p.len() as int]))
}

/// The chapter title once an `Episode`, `Ep` or `第` lead-in is taken off; `Episode` and
/// `Ep` count only when no letter follows them.
pub open spec fn chapter_step_episode(c: Seq<char>) -> Seq<char> {
    if episode_lead(c, "Episode"@) {
        strip_start(after_prefix(c, "Episode"@), CharClass::Space)
    } else if episode_lead(c, "Ep"@) {
        strip_start(after_prefix(c, "Ep"@), CharClass::Space)
    } else if starts_with(c, "第"@) {
        strip_start(after_prefix(c, "第"@), CharClass::Space)
    } else {
        c
    }
}

/// The chapter title once the episode number, a following `集`, and separators are off.
pub open spec fn chapter_step_number(c: Seq<char>) -> Seq<char> {
    let d = strip_start(c, CharClass::Digit);
    let e = if starts_with(d, "集"@) {
        strip_start(after_prefix(d, "集"@), CharClass::Space)
    } else {
        d
    };
    strip_start(e, CharClass::Separator)
}

/// A chapter title without the book title, the episode lead-in, number and separators.
pub open spec fn clean_chapter_title_of(t: Seq<char>, book: Seq<char>) -> Seq<char> {
    chapter_step_number(chapter_step_episode(chapter_step_book(t, book)))
}

/// The size of the whole ID3v2 tag announced by its ten-byte header: the four size bytes
/// at offsets 6..10 combined as a synchsafe integer, plus the header itself. `None` when
/// the header is shorter than ten bytes or does not start with `ID3`.
pub open spec fn id3_size_of(h: Seq<u8>) -> Option<usize> {
    if h.len() < 10 || !(h[0] == 0x49 && h[1] == 0x44 && h[2] == 0x33) {
        None
    } else {
        Some(
            ((((h[6] as usize) << 21usize) | ((h[7] as usize) << 14usize) | ((h[8] as usize)
                << 7usize) | (h[9] as usize)) + 10) as usize,
        )
    }
}

/// Audio metadata. The duration is kept as the tag's length text (`duration_text`);
/// reading seconds out of it is floating-point work done by the caller.
#[derive(Debug)]
pub struct AudioMetadata {
    pub title: Option<String>,
    pub artist: Option<String>,
    pub album: Option<String>,
    pub track_number: Option<u64>,
    pub format: AudioFormat,
    pub duration_text: Option<String>,
    pub bitrate: Option<u32>,
    pub sample_rate: Option<u32>,
    pub channels: Option<u8>,
    pub encrypted_size: Option<usize>,
    pub header_size: Option<usize>,
    pub cover_url: Option<String>,
    pub narrator: Option<String>,
}

/// The value of an `AudioMetadata`.
pub struct AudioMetadataView {
    pub title: Option<Seq<char>>,
    pub artist: Option<Seq<char>>,
    pub album: Option<Seq<char>>,
    pub track_number: Option<u64>,
    pub format: AudioFormat,
    pub duration_text: Option<Seq<char>>,
    pub bitrate: Option<u32>,
    pub sample_rate: Option<u32>,
    pub channels: Option<u8>,
    pub encrypted_size: Option<usize>,
    pub header_size: Option<usize>,
    pub cover_url: Option<Seq<char>>,
    pub narrator: Option<Seq<char>>,
}

impl View for AudioMetadata {
    type V = AudioMetadataView;

    open spec fn view(&self) -> AudioMetadataView {
        AudioMetadataView {
            title: opt_view(self.title),
            artist: opt_view(self.artist),
            album: opt_view(self.album),
            track_number: self.track_number,
            format: self.format,
            duration_text: opt_view(self.duration_text),
            bitrate: self.bitrate,
            sample_rate: self.sample_rate,
            channels: self.channels,
            encrypted_size: self.encrypted_size,
            header_size: self.header_size,
            cover_url: opt_view(self.cover_url),
            narrator: opt_view(self.narrator),
        }
    }
}

/// The metadata of an XM file: cleaned book and chapter titles, the narrator from the
/// artist field, the format from the header, and the XM sizes.
pub open spec fn metadata_of(info: XmInfoView, header: Seq<u8>) -> AudioMetadataView {
    let album = clean_book_title_of(or_default(info.album, Seq::empty()));
    AudioMetadataView {
        title: Some(clean_chapter_title_of(or_default(info.title, Seq::empty()), album)),
        artist: None,
        album: Some(album),
        track_number: Some(info.tracknumber),
        format: audio_format_of(header),
        duration_text: info.duration_text,
        bitrate: None,
        sample_rate: None,
        channels: None,
        encrypted_size: Some(info.size),
        header_size: Some(info.header_size),
        cover_url: info.cover_url,
        narrator: info.artist,
    }
}

/// The printable header text, lowered.
pub fn printable_lower_exec(h: &[u8]) -> (r: Vec<char>)
    ensures
        r@ == printable_lower(h@),
{
    let mut r: Vec<char> = Vec::new();
    let mut i: usize = 0;
    assert(h@.take(0) =~= Seq::<u8>::empty());
    while i < h.len()
        invariant
            i <= h.len(),
            r@ == printable_lower(h@.take(i as int)),
        decreases h.len() - i,
    {
        assert(h@.take(i + 1).drop_last() =~= h@.take(i as int));
        let b = h[i];
        if 0x20 <= b && b <= 0x7e {
            let c = if 65 <= b && b <= 90 {
                (b + 32) as char
            } else {
                b as char
            };
            r.push(c);
        }
        i += 1;
    }
    assert(h@.take(i as int) =~= h@);
    r
}

/// The extension a header's text suggests.
pub fn extension_exec(h: &[char], with_ogg: bool) -> (r: &'static str)
    ensures
        r@ == extension_of(h@, with_ogg),
{
    if contains_exec(h, &chars_of("m4a")) {
        "m4a"
    } else if contains_exec(h, &chars_of("mp3")) {
        "mp3"
    } else if contains_exec(h, &chars_of("flac")) {
        "flac"
    } else if contains_exec(h, &chars_of("wav")) {
        "wav"
    } else if with_ogg && contains_exec(h, &chars_of("ogg")) {
        "ogg"
    } else {
        "m4a"
    }
}

/// `artist - album - title.ext`, cleaned of the characters a file name may not hold.
pub fn compose_name_exec(artist: &[char], album: &[char], title: &[char], ext: &str) -> (r: String)
    ensures
        r@ == compose_name(artist@, album@, title@, ext@),
        forall|i: int| 0 <= i < r@.len() ==> !forbidden_chars().contains(#[trigger] r@[i]),
{
    let sep = chars_of(" - ");
    let dot = chars_of(".");
    let e = chars_of(ext);
    let n1 = concat_of(artist, &sep);
    let n2 = concat_of(&n1, album);
    let n3 = concat_of(&n2, &sep);
    let n4 = concat_of(&n3, title);
    let n5 = concat_of(&n4, &dot);
    let n6 = concat_of(&n5, &e);
    let bad = vec!['\\', ':', '/', '*', '?', '"', '<', '>', '|'];
    assert(bad@ =~= forbidden_chars());
    let cleaned = remove_all_exec(&n6, &bad);
    proof {
        lemma_remove_all_clean(n6@, forbidden_chars());
    }
    string_of(&cleaned)
}

/// The characters of an optional string, or of `default` when it is absent.
pub fn text_or(o: &Option<String>, default: &str) -> (r: Vec<char>)
    ensures
        r@ == or_default(opt_view(*o), default@),
{
    match o {
        Some(s) => chars_of(s.as_str()),
        None => chars_of(default),
    }
}

/// Finds the characters before the first title separator.
fn before_separator_exec(s: &[char]) -> (r: Vec<char>)
    ensures
        r@ == before_separator(s@),
{
    let mut i: usize = 0;
    assert(s@.subrange(0, 0) + before_separator(s@.subrange(0, s.len() as int)) =~= before_separator(s@)) by {
        assert(s@.subrange(0, s.len() as int) =~= s@);
    }
    while i < s.len() && s[i] != '|' && s[i] != '丨'
        invariant
            i <= s.len(),
            s@.subrange(0, i as int) + before_separator(s@.subrange(i as int, s.len() as int))
                == before_separator(s@),
        decreases s.len() - i,
    {
        let ghost rest = s@.subrange(i as int, s.len() as int);
        assert(rest.drop_first() =~= s@.subrange(i + 1, s.len() as int));
        assert(s@.subrange(0, i + 1) =~= s@.subrange(0, i as int) + seq![s@[i as int]]);
        i += 1;
    }
    assert(s@.subrange(0, i as int) + before_separator(s@.subrange(i as int, s.len() as int))
        =~= s@.subrange(0, i as int));
    sub_of(s, 0, i)
}

/// `c` without the lead-in `p` and the white space after it; `None` when `c` does not
/// start with `p`.
fn strip_lead(c: &[char], p: &str) -> (r: Option<Vec<char>>)
    ensures
        match r {
            Some(v) => starts_with(c@, p@) && v@ == strip_start(after_prefix(c@, p@), CharClass::Space),
            None => !starts_with(c@, p@),
        },
{
    let pv = chars_of(p);
    if starts_with_exec(c, &pv) {
        let rest = sub_of(c, pv.len(), c.len());
        Some(strip_start_class(&rest, CharClass::Space))
    } else {
        None
    }
}

/// `c` without the episode lead-in `p` and the white space after it; `None` when `c` does
/// not start with `p`, or a letter follows it.
fn strip_episode_lead(c: &[char], p: &str) -> (r: Option<Vec<char>>)
    ensures
        match r {
            Some(v) => episode_lead(c@, p@) && v@ == strip_start(after_prefix(c@, p@), CharClass::Space),
            None => !episode_lead(c@, p@),
        },
{
    let pv = chars_of(p);
    if starts_with_exec(c, &pv) && (c.len() == pv.len() || !(('a' <= c[pv.len()] && c[pv.len()]
        <= 'z') || ('A' <= c[pv.len()] && c[pv.len()] <= 'Z'))) {
        let rest = sub_of(c, pv.len(), c.len());
        Some(strip_start_class(&rest, CharClass::Space))
    } else {
        None
    }
}

impl MetadataExtractor {
    /// A book title without the part after a `|` or `丨` separator, trimmed.
    pub fn clean_book_title(title: &str) -> (r: String)
        ensures
            r@ == clean_book_title_of(title@),
    {
        let t = chars_of(title);
        let b = before_separator_exec(&t);
        string_of(&trim_chars(&b))
    }

    /// A chapter title without the book title, episode lead-in, number and separators.
    pub fn clean_chapter_title(title: &str, book_title: &str) -> (r: String)
        ensures
            r@ == clean_chapter_title_of(title@, book_title@),
    {
        let t = chars_of(title);
        let book = chars_of(book_title);
        let c0 = trim_chars(&t);
        let c1 = if book.len() > 0 && starts_with_exec(&c0, &book) {
            let rest = sub_of(&c0, book.len(), c0.len());
            trim_chars(&rest)
        } else {
            c0
        };
        let c2 = match strip_episode_lead(&c1, "Episode") {
            Some(v) => v,
            None => match strip_episode_lead(&c1, "Ep") {
                Some(v) => v,
                None => match strip_lead(&c1, "第") {
                    Some(v) => v,
                    None => c1,
                },
            },
        };
        let d = strip_start_class(&c2, CharClass::Digit);
        let e = match strip_lead(&d, "集") {
            Some(v) => v,
            None => d,
        };
        let f = strip_start_class(&e, CharClass::Separator);
        string_of(&f)
    }

    /// The audio format a file header announces.
    pub fn detect_audio_format(header: &[u8]) -> (r: AudioFormat)
        ensures
            r == audio_format_of(header@),
    {
        if header.len() < 4 {
            return AudioFormat::Unknown;
        }
        if (header[0] == 0x49 && header[1] == 0x44 && header[2] == 0x33) || (header[0] == 0xff
            && (header[1] & 0xe0) == 0xe0) {
            return AudioFormat::Mp3;
        }
        if header.len() >= 8 && header[4] == 0x66 && header[5] == 0x74 && header[6] == 0x79
            && header[7] == 0x70 {
            return AudioFormat::M4a;
        }
        if header[0] == 0x66 && header[1] == 0x4c && header[2] == 0x61 && header[3] == 0x43 {
            return AudioFormat::Flac;
        }
        if header[0] == 0x52 && header[1] == 0x49 && header[2] == 0x46 && header[3] == 0x46
            && header.len() >= 12 && header[8] == 0x57 && header[9] == 0x41 && header[10] == 0x56
            && header[11] == 0x45 {
            return AudioFormat::Wav;
        }
        if header[0] == 0x4f && header[1] == 0x67 && header[2] == 0x67 && header[3] == 0x53 {
            return AudioFormat::Ogg;
        }
        AudioFormat::Unknown
    }

    /// The metadata of an XM file from its tag and the first bytes of the file.
    pub fn extract(xm_info: &XmInfo, header: &[u8]) -> (r: AudioMetadata)
        ensures
            r@ == metadata_of(xm_info@, header@),
    {
        let format = Self::detect_audio_format(header);
        let album_text = match &xm_info.album {
            Some(s) => s.as_str(),
            None => "",
        };
        proof {
            reveal_strlit("");
            assert(""@ =~= Seq::<char>::empty());
        }
        let clean_album = Self::clean_book_title(album_text);
        let title_text = match &xm_info.title {
            Some(s) => s.as_str(),
            None => "",
        };
        let clean_title = Self::clean_chapter_title(title_text, clean_album.as_str());
        AudioMetadata {
            title: Some(clean_title),
            artist: None,
            album: Some(clean_album),
            track_number: Some(xm_info.tracknumber),
            format,
            duration_text: clone_opt(&xm_info.duration_text),
            bitrate: None,
            sample_rate: None,
            channels: None,
            encrypted_size: Some(xm_info.size),
            header_size: Some(xm_info.header_size),
            cover_url: clone_opt(&xm_info.cover_url),
            narrator: clone_opt(&xm_info.artist),
        }
    }

    /// The metadata of a decrypted audio file: its format, from its first bytes. A
    /// decrypted file has no XM container, so it has no encrypted size, XM tag size or XM
    /// tag fields (title, artist, album, track, cover, narrator). The stream properties
    /// (duration, bitrate, sample rate, channels) are not promised: this function does not
    /// read the audio stream.
    pub fn extract_from_decrypted(header: &[u8]) -> (r: AudioMetadata)
        ensures
            r@.format == audio_format_of(header@),
            r@.encrypted_size is None,
            r@.header_size is None,
            r@.title is None,
            r@.artist is None,
            r@.album is None,
            r@.track_number is None,
            r@.cover_url is None,
            r@.narrator is None,
    {
        AudioMetadata {
            title: None,
            artist: None,
            album: None,
            track_number: None,
            format: Self::detect_audio_format(header),
            duration_text: None,
            bitrate: None,
            sample_rate: None,
            channels: None,
            encrypted_size: None,
            header_size: None,
            cover_url: None,
            narrator: None,
        }
    }

    /// The suggested output file name from the metadata and the file's first bytes.
    pub fn format_filename(info: &XmInfo, header: &[u8]) -> (r: String)
        ensures
            r@ == formatted_filename(info@, header@),
            forall|i: int| 0 <= i < r@.len() ==> !forbidden_chars().contains(#[trigger] r@[i]),
    {
        let h = printable_lower_exec(header);
        let ext = extension_exec(&h, true);
        let artist = text_or(&info.artist, "Unknown Artist");
        let album = text_or(&info.album, "Unknown Album");
        let title = text_or(&info.title, "Unknown Title");
        compose_name_exec(&artist, &album, &title, ext)
    }

    /// The size of the ID3v2 tag a header announces, header included.
    pub fn get_id3_size(header: &[u8]) -> (r: Option<usize>)
        ensures
            r == id3_size_of(header@),
    {
        if header.len() < 10 {
            return None;
        }
        if !(header[0] == 0x49 && header[1] == 0x44 && header[2] == 0x33) {
            return None;
        }
        let b6 = header[6];
        let b7 = header[7];
        let b8 = header[8];
        let b9 = header[9];
        let size: usize = ((b6 as usize) << 21usize) | ((b7 as usize) << 14usize) | ((b8 as usize)
            << 7usize) | (b9 as usize);
        assert(((b6 as usize) << 21usize) | ((b7 as usize) << 14usize) | ((b8 as usize) << 7usize)
            | (b9 as usize) <= 0x1fff_ffff) by (bit_vector);
        Some(size + 10)
    }
}

/// Reads metadata from XM files.
pub struct MetadataExtractor;

/// No character before the first separator is a separator.
proof fn lemma_before_separator_clean(s: Seq<char>)
    ensures
        forall|i: int|
            0 <= i < before_separator(s).len() ==> #[trigger] before_separator(s)[i] != '|'
                && before_separator(s)[i] != '丨',
    decreases s.len(),
{
    if s.len() > 0 && s[0] != '|' && s[0] != '丨' {
        lemma_before_separator_clean(s.drop_first());
        let r = before_separator(s.drop_first());
        assert forall|i: int| 0 <= i < (seq![s[0]] + r).len() implies #[trigger] (seq![s[0]]
            + r)[i] != '|' && (seq![s[0]] + r)[i] != '丨' by {
            if i > 0 {
                assert((seq![s[0]] + r)[i] == r[i - 1]);
            }
        }
    }
}

/// A cleaned book title holds no `|` or `丨` separator, and neither begins nor ends with
/// white space.
pub proof fn lemma_clean_book_title_clean(t: Seq<char>)
    ensures
        forall|i: int|
            0 <= i < clean_book_title_of(t).len() ==> #[trigger] clean_book_title_of(t)[i] != '|'
                && clean_book_title_of(t)[i] != '丨',
        clean_book_title_of(t).len() > 0 ==> !is_ws(clean_book_title_of(t)[0]) && !is_ws(
            clean_book_title_of(t).last(),
        ),
{
    let b = before_separator(t);
    lemma_before_separator_clean(t);
    lemma_trim_shape(b);
    let (x, y) = choose|x: int, y: int| 0 <= x <= y <= b.len() && trim(b) == b.subrange(x, y);
    assert forall|i: int| 0 <= i < trim(b).len() implies #[trigger] trim(b)[i] != '|' && trim(
        b,
    )[i] != '丨' by {
        assert(trim(b)[i] == b[x + i]);
    }
}

/// A header that starts with an ID3v2 tag (the bytes `ID3`, whatever version byte follows)
/// or with an MPEG frame sync (`0xFF`, then a byte of at least `0xE0`) is MP3.
pub proof fn lemma_id3_or_frame_sync_is_mp3(h: Seq<u8>)
    requires
        h.len() >= 4,
        (h[0] == 0x49 && h[1] == 0x44 && h[2] == 0x33) || (h[0] == 0xff && h[1] >= 0xe0),
    ensures
        audio_format_of(h) == AudioFormat::Mp3,
{
    let b = h[1];
    assert((b & 0xe0) == 0xe0 <==> b >= 0xe0) by (bit_vector);
}

/// Fewer than four bytes say nothing about the format.
pub proof fn lemma_short_header_is_unknown(h: Seq<u8>)
    requires
        h.len() < 4,
    ensures
        audio_format_of(h) == AudioFormat::Unknown,
{
}

/// The other containers by their magic bytes, for a header that is not MP3-like (its
/// first byte is neither `I` nor `0xFF`): `ftyp` at offset 4 is M4A; otherwise `fLaC` is
/// FLAC, `RIFF` with `WAVE` at offset 8 is WAV, and `OggS` is OGG.
pub proof fn lemma_container_magic(h: Seq<u8>)
    requires
        h.len() >= 4,
        h[0] != 0x49,
        h[0] != 0xff,
    ensures
        h.len() >= 8 && h.subrange(4, 8) == seq![0x66u8, 0x74u8, 0x79u8, 0x70u8] ==> audio_format_of(h)
            == AudioFormat::M4a,
        !(h.len() >= 8 && h.subrange(4, 8) == seq![0x66u8, 0x74u8, 0x79u8, 0x70u8]) ==> {
            &&& h.subrange(0, 4) == seq![0x66u8, 0x4cu8, 0x61u8, 0x43u8] ==> audio_format_of(h)
                == AudioFormat::Flac
            &&& h.len() >= 12 && h.subrange(0, 4) == seq![0x52u8, 0x49u8, 0x46u8, 0x46u8]
                && h.subrange(8, 12) == seq![0x57u8, 0x41u8, 0x56u8, 0x45u8] ==> audio_format_of(h)
                == AudioFormat::Wav
            &&& h.subrange(0, 4) == seq![0x4fu8, 0x67u8, 0x67u8, 0x53u8] ==> audio_format_of(h)
                == AudioFormat::Ogg
        },
{
    if h.len() >= 8 && h.subrange(4, 8) == seq![0x66u8, 0x74u8, 0x79u8, 0x70u8] {
        assert(h[4] == h.subrange(4, 8)[0] && h[5] == h.subrange(4, 8)[1] && h[6] == h.subrange(4, 8)[2]
            && h[7] == h.subrange(4, 8)[3]);
    }
    if h.len() >= 8 {
        if h[4] == 0x66 && h[5] == 0x74 && h[6] == 0x79 && h[7] == 0x70 {
            assert(h.subrange(4, 8) =~= seq![0x66u8, 0x74u8, 0x79u8, 0x70u8]);
        }
    }
    let p = h.subrange(0, 4);
    assert(h[0] == p[0] && h[1] == p[1] && h[2] == p[2] && h[3] == p[3]);
    if h.len() >= 12 {
        let q = h.subrange(8, 12);
        assert(h[8] == q[0] && h[9] == q[1] && h[10] == q[2] && h[11] == q[3]);
    }
}

/// No character of the text is one a file name may not hold.
pub open spec fn name_safe(s: Seq<char>) -> bool {
    forall|i: int| 0 <= i < s.len() ==> !forbidden_chars().contains(#[trigger] s[i])
}

/// The separators of a file name hold no forbidden character.
proof fn lemma_name_separators_safe()
    ensures
        name_safe(" - "@),
        name_safe("."@),
{
    reveal_strlit(" - ");
    reveal_strlit(".");
    let f = forbidden_chars();
    assert forall|i: int| 0 <= i < " - "@.len() implies !f.contains(#[trigger] " - "@[i]) by {
        if f.contains(" - "@[i]) {
            let j = choose|j: int| 0 <= j < f.len() && f[j] == " - "@[i];
            assert(f[j] == " - "@[i]);
        }
    }
    assert forall|i: int| 0 <= i < "."@.len() implies !f.contains(#[trigger] "."@[i]) by {
        if f.contains("."@[i]) {
            let j = choose|j: int| 0 <= j < f.len() && f[j] == "."@[i];
            assert(f[j] == "."@[i]);
        }
    }
}

/// A file name is `artist - album - title.ext` with exactly the forbidden characters taken
/// out of each part; parts that hold none of them come through whole, whatever other
/// characters (Chinese text among them) they hold.
pub proof fn lemma_file_name_parts(artist: Seq<char>, album: Seq<char>, title: Seq<char>, ext: Seq<char>)
    ensures
        compose_name(artist, album, title, ext) == remove_all(artist, forbidden_chars()) + " - "@
            + remove_all(album, forbidden_chars()) + " - "@ + remove_all(title, forbidden_chars())
            + "."@ + remove_all(ext, forbidden_chars()),
        name_safe(artist) && name_safe(album) && name_safe(title) && name_safe(ext) ==> compose_name(
            artist,
            album,
            title,
            ext,
        ) == artist + " - "@ + album + " - "@ + title + "."@ + ext,
{
    let f = forbidden_chars();
    let sep = " - "@;
    let dot = "."@;
    lemma_name_separators_safe();
    lemma_remove_all_keeps_clean_text(sep, f);
    lemma_remove_all_keeps_clean_text(dot, f);
    lemma_remove_all_distributes(artist + sep + album + sep + title + dot, ext, f);
    lemma_remove_all_distributes(artist + sep + album + sep + title, dot, f);
    lemma_remove_all_distributes(artist + sep + album + sep, title, f);
    lemma_remove_all_distributes(artist + sep + album, sep, f);
    lemma_remove_all_distributes(artist + sep, album, f);
    lemma_remove_all_distributes(artist, sep, f);
    if name_safe(artist) && name_safe(album) && name_safe(title) && name_safe(ext) {
        lemma_remove_all_keeps_clean_text(artist, f);
        lemma_remove_all_keeps_clean_text(album, f);
        lemma_remove_all_keeps_clean_text(title, f);
        lemma_remove_all_keeps_clean_text(ext, f);
    }
}

/// The header text keeps every printable ASCII byte (0x20 to 0x7E), in order, with
/// upper-case letters lowered; a byte outside that range adds nothing.
pub proof fn lemma_printable_lower_text(h: Seq<u8>, b: u8)
    ensures
        !(0x20 <= b <= 0x7e) ==> printable_lower(h.push(b)) == printable_lower(h),
        (forall|i: int| 0 <= i < h.len() ==> 0x20 <= #[trigger] h[i] <= 0x7e) ==> {
            &&& printable_lower(h).len() == h.len()
            &&& forall|i: int|
                0 <= i < h.len() ==> #[trigger] printable_lower(h)[i] as u32 == if 65 <= h[i]
                    <= 90 {
                    h[i] + 32
                } else {
                    h[i] as int
                }
        },
    decreases h.len(),
{
    assert(h.push(b).drop_last() =~= h);
    if h.len() > 0 {
        lemma_printable_lower_text(h.drop_last(), h.last());
        if forall|i: int| 0 <= i < h.len() ==> 0x20 <= #[trigger] h[i] <= 0x7e {
            let g = h.drop_last();
            assert forall|i: int| 0 <= i < g.len() implies 0x20 <= #[trigger] g[i] <= 0x7e by {
                assert(g[i] == h[i]);
            }
            let c = h.last();
            assert(0x20 <= h[h.len() - 1] <= 0x7e);
            assert forall|i: int| 0 <= i < h.len() implies #[trigger] printable_lower(h)[i] as u32
                == if 65 <= h[i] <= 90 {
                h[i] + 32
            } else {
                h[i] as int
            } by {
                if i < h.len() - 1 {
                    assert(h[i] == g[i]);
                } else {
                    let x = c;
                    assert(65 <= x <= 90 ==> ((x + 32) as u8) as char as u32 == x + 32);
                    assert(!(65 <= x <= 90) ==> (x as char) as u32 == x);
                }
            }
        }
    }
}

/// `before_separator` keeps the longest prefix free of `|` and `丨`.
proof fn lemma_before_separator_prefix(t: Seq<char>, k: int)
    requires
        0 <= k <= t.len(),
        forall|i: int| 0 <= i < k ==> #[trigger] t[i] != '|' && t[i] != '丨',
        k == t.len() || t[k] == '|' || t[k] == '丨',
    ensures
        before_separator(t) == t.subrange(0, k),
    decreases t.len(),
{
    if t.len() == 0 {
        assert(t.subrange(0, k) =~= t);
    } else if k == 0 {
        assert(t.subrange(0, 0) =~= Seq::<char>::empty());
    } else {
        let rest = t.drop_first();
        assert forall|i: int| 0 <= i < k - 1 implies #[trigger] rest[i] != '|' && rest[i] != '丨' by {
            assert(rest[i] == t[i + 1]);
        }
        if k < t.len() {
            assert(rest[k - 1] == t[k]);
        }
        lemma_before_separator_prefix(rest, k - 1);
        assert(seq![t[0]] + rest.subrange(0, k - 1) =~= t.subrange(0, k));
    }
}

/// The cleaned book title is the trimmed longest prefix of the title free of `|` and `丨`:
/// only those two characters end a book title (`Spider-Man | Stan Lee` gives
/// `Spider-Man`).
pub proof fn lemma_clean_book_title_cuts_at_separator(t: Seq<char>, k: int)
    requires
        0 <= k <= t.len(),
        forall|i: int| 0 <= i < k ==> #[trigger] t[i] != '|' && t[i] != '丨',
        k == t.len() || t[k] == '|' || t[k] == '丨',
    ensures
        clean_book_title_of(t) == trim(t.subrange(0, k)),
{
    lemma_before_separator_prefix(t, k);
}

/// A book title holding neither `|` nor `丨` comes back only trimmed.
pub proof fn lemma_clean_book_title_without_separator(t: Seq<char>)
    requires
        forall|i: int| 0 <= i < t.len() ==> #[trigger] t[i] != '|' && t[i] != '丨',
    ensures
        clean_book_title_of(t) == trim(t),
{
    lemma_before_separator_prefix(t, t.len() as int);
    assert(t.subrange(0, t.len() as int) =~= t);
}

/// A cleaned chapter title never begins with one of the separators `:`, `-`, space, `.`.
pub proof fn lemma_clean_chapter_title_no_leading_separator(t: Seq<char>, book: Seq<char>)
    ensures
        clean_chapter_title_of(t, book).len() > 0 ==> !in_class(
            CharClass::Separator,
            clean_chapter_title_of(t, book)[0],
        ),
{
    let c = chapter_step_episode(chapter_step_book(t, book));
    let d = strip_start(c, CharClass::Digit);
    let e = if starts_with(d, "集"@) {
        strip_start(after_prefix(d, "集"@), CharClass::Space)
    } else {
        d
    };
    lemma_strip_start_shape(e, CharClass::Separator);
}

/// For a well-formed header, whose four size bytes are below 0x80, the tag size is the
/// synchsafe value (seven bits per byte) plus the ten header bytes.
pub proof fn lemma_id3_size_synchsafe(h: Seq<u8>)
    requires
        h.len() >= 10,
        h[0] == 0x49 && h[1] == 0x44 && h[2] == 0x33,
        h[6] < 0x80 && h[7] < 0x80 && h[8] < 0x80 && h[9] < 0x80,
    ensures
        id3_size_of(h) == Some(
            (h[6] * 0x20_0000 + h[7] * 0x4000 + h[8] * 0x80 + h[9] + 10) as usize,
        ),
{
    let (a, b, c, d) = (h[6], h[7], h[8], h[9]);
    assert(((a as usize) << 21usize) | ((b as usize) << 14usize) | ((c as usize) << 7usize) | (
    d as usize) == (a as usize) * 0x20_0000 + (b as usize) * 0x4000 + (c as usize) * 0x80
        + (d as usize)) by (bit_vector)
        requires
            a < 0x80 && b < 0x80 && c < 0x80 && d < 0x80,
    ;
}

/// Whatever the size bytes hold, an announced tag size counts at least the ten header
/// bytes and at most 2^29 + 9.
pub proof fn lemma_id3_size_bounds(h: Seq<u8>)
    ensures
        id3_size_of(h) matches Some(n) ==> 10 <= n <= 0x2000_0009,
{
    if h.len() >= 10 {
        let (a, b, c, d) = (h[6], h[7], h[8], h[9]);
        assert(((a as usize) << 21usize) | ((b as usize) << 14usize) | ((c as usize) << 7usize)
            | (d as usize) <= 0x1fff_ffff) by (bit_vector);
    }
}

} // verus!
