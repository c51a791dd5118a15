//! The XM metadata carried in the ID3v2 tag, how it is read from the tag's frames,
//! and the decryption pipeline built on it.
use vstd::prelude::*;
use vstd::utf8::valid_utf8;
use crate::codec::{
    aes256_cbc_decrypt, aes256_cbc_pkcs7_decrypt, base64_decode, base64_standard_decode,
    hex_decode, hex_decode_str, hex_encode, lemma_hex_roundtrip, utf8_string,
};
use crate::wasm_runtime::{decrypt_chunk_native, native_outcome, TransformCall};
use crate::text::{
    chars_of, contains, contains_exec, ends_with, ends_with_exec, parse_unsigned,
    parse_unsigned_exec, lemma_parse_decimal_roundtrip, same_text, starts_with, starts_with_exec, string_of, concat_of,
    decimal, decimal_chars, digit_char, sub_of,
};
use crate::metadata::{
    compose_name, compose_name_exec, extension_exec, extension_of, forbidden_chars, or_default,
    printable_lower, printable_lower_exec, text_or, id3_size_of, MetadataExtractor,
};
use crate::{XmError, XmErrorView};

verus! {

/// One ID3v2 frame as the XM logic reads it: its four-character id and, for a text
/// frame, its text.
pub struct Id3Frame {
    pub id: String,
    pub text: Option<String>,
}

/// An ID3v2 tag as the XM logic reads it: its frames in file order, the texts of its
/// comment frames in file order, how many attached pictures it has, and the size of the
/// whole tag including its ten-byte header.
pub struct Id3Tag {
    pub frames: Vec<Id3Frame>,
    pub comments: Vec<String>,
    pub picture_count: usize,
    pub header_tag_size: usize,
}

/// The characters of an optional string.
pub open spec fn opt_view(o: Option<String>) -> Option<Seq<char>> {
    match o {
        Some(s) => Some(s@),
        None => None,
    }
}

/// The value of an `Id3Frame`.
pub struct Id3FrameView {
    pub id: Seq<char>,
    pub text: Option<Seq<char>>,
}

impl View for Id3Frame {
    type V = Id3FrameView;

    open spec fn view(&self) -> Id3FrameView {
        Id3FrameView { id: self.id@, text: opt_view(self.text) }
    }
}

/// The value of an `Id3Tag`.
pub struct Id3TagView {
    pub frames: Seq<Id3FrameView>,
    pub comments: Seq<Seq<char>>,
    pub picture_count: nat,
    pub header_tag_size: nat,
}

impl View for Id3Tag {
    type V = Id3TagView;

    open spec fn view(&self) -> Id3TagView {
        Id3TagView {
            frames: self.frames@.map_values(|f: Id3Frame| f@),
            comments: self.comments@.map_values(|c: String| c@),
            picture_count: self.picture_count as nat,
            header_tag_size: self.header_tag_size as nat,
        }
    }
}

/// XM file metadata.
///
/// The tag's length text (`TLEN`, or `TDLEN` when there is no `TLEN`) is kept as text in
/// `duration_text`; turning it into seconds is floating-point work done by the caller.
#[derive(Debug)]
pub struct XmInfo {
    pub title: Option<String>,
    pub artist: Option<String>,
    pub album: Option<String>,
    pub tracknumber: u64,
    pub size: usize,
    pub header_size: usize,
    pub isrc: Option<String>,
    pub encodedby: Option<String>,
    pub encoding_technology: Option<String>,
    pub has_cover: bool,
    pub cover_url: Option<String>,
    pub duration_text: Option<String>,
}

/// The value of an `XmInfo`.
pub struct XmInfoView {
    pub title: Option<Seq<char>>,
    pub artist: Option<Seq<char>>,
    pub album: Option<Seq<char>>,
    pub tracknumber: u64,
    pub size: usize,
    pub header_size: usize,
    pub isrc: Option<Seq<char>>,
    pub encodedby: Option<Seq<char>>,
    pub encoding_technology: Option<Seq<char>>,
    pub has_cover: bool,
    pub cover_url: Option<Seq<char>>,
    pub duration_text: Option<Seq<char>>,
}

impl View for XmInfo {
    type V = XmInfoView;

    open spec fn view(&self) -> XmInfoView {
        XmInfoView {
            title: opt_view(self.title),
            artist: opt_view(self.artist),
            album: opt_view(self.album),
            tracknumber: self.tracknumber,
            size: self.size,
            header_size: self.header_size,
            isrc: opt_view(self.isrc),
            encodedby: opt_view(self.encodedby),
            encoding_technology: opt_view(self.encoding_technology),
            has_cover: self.has_cover,
            cover_url: opt_view(self.cover_url),
            duration_text: opt_view(self.duration_text),
        }
    }
}

/// A copy of an optional string.
pub fn clone_opt(o: &Option<String>) -> (r: Option<String>)
    ensures
        opt_view(r) == opt_view(*o),
{
    match o {
        Some(s) => Some(s.clone()),
        None => None,
    }
}

/// The empty metadata: no texts, zero numbers, no cover.
pub open spec fn empty_info() -> XmInfoView {
    XmInfoView {
        title: None,
        artist: None,
        album: None,
        tracknumber: 0,
        size: 0,
        header_size: 0,
        isrc: None,
        encodedby: None,
        encoding_technology: None,
        has_cover: false,
        cover_url: None,
        duration_text: None,
    }
}

impl Default for XmInfo {
    fn default() -> (r: Self)
        ensures
            r@ == empty_info(),
    {
        XmInfo {
            title: None,
            artist: None,
            album: None,
            tracknumber: 0,
            size: 0,
            header_size: 0,
            isrc: None,
            encodedby: None,
            encoding_technology: None,
            has_cover: false,
            cover_url: None,
            duration_text: None,
        }
    }
}

impl Clone for XmInfo {
    fn clone(&self) -> (r: Self)
        ensures
            r@ == self@,
    {
        XmInfo {
            title: clone_opt(&self.title),
            artist: clone_opt(&self.artist),
            album: clone_opt(&self.album),
            tracknumber: self.tracknumber,
            size: self.size,
            header_size: self.header_size,
            isrc: clone_opt(&self.isrc),
            encodedby: clone_opt(&self.encodedby),
            encoding_technology: clone_opt(&self.encoding_technology),
            has_cover: self.has_cover,
            cover_url: clone_opt(&self.cover_url),
            duration_text: clone_opt(&self.duration_text),
        }
    }
}

/// The first frame with the given id, as the tag's `get` finds it.
pub open spec fn first_frame(fs: Seq<Id3FrameView>, id: Seq<char>) -> Option<Id3FrameView>
    decreases fs.len(),
{
    if fs.len() == 0 {
        None
    } else if fs[0].id == id {
        Some(fs[0])
    } else {
        first_frame(fs.drop_first(), id)
    }
}

/// The text of the first frame with this id (empty when that frame holds no text),
/// or `None` when the tag has no such frame.
pub open spec fn frame_text(t: Id3TagView, id: Seq<char>) -> Option<Seq<char>> {
    match first_frame(t.frames, id) {
        Some(f) => match f.text {
            Some(x) => Some(x),
            None => Some(Seq::empty()),
        },
        None => None,
    }
}

/// The number in the first frame with this id; 0 when the frame is absent, holds no
/// text, or its text is not an unsigned number no larger than `max`.
pub open spec fn frame_number(t: Id3TagView, id: Seq<char>, max: nat) -> nat {
    match first_frame(t.frames, id) {
        Some(f) => match f.text {
            Some(x) => match parse_unsigned(x, max) {
                Some(v) => v,
                None => 0,
            },
            None => 0,
        },
        None => 0,
    }
}

/// A comment that points at a cover image: it mentions `image` and ends in a picture
/// file extension.
pub open spec fn is_cover_comment(c: Seq<char>) -> bool {
    contains(c, "image"@) && (ends_with(c, ".jpg"@) || ends_with(c, ".png"@) || ends_with(
        c,
        ".jpeg"@,
    ))
}

/// The first cover comment.
pub open spec fn first_cover(cs: Seq<Seq<char>>) -> Option<Seq<char>>
    decreases cs.len(),
{
    if cs.len() == 0 {
        None
    } else if is_cover_comment(cs[0]) {
        Some(cs[0])
    } else {
        first_cover(cs.drop_first())
    }
}

/// A protocol-relative link (`//host/...`) is completed with `https:`.
pub open spec fn cover_link(c: Seq<char>) -> Seq<char> {
    if starts_with(c, "//"@) {
        "https:"@ + c
    } else {
        c
    }
}

/// The text of `TLEN`, or of `TDLEN` when the tag has no `TLEN` frame.
pub open spec fn duration_text_of(t: Id3TagView) -> Option<Seq<char>> {
    match first_frame(t.frames, "TLEN"@) {
        Some(f) => f.text,
        None => match first_frame(t.frames, "TDLEN"@) {
            Some(f) => f.text,
            None => None,
        },
    }
}

/// How the XM metadata is read from the tag.
pub open spec fn xm_info_of_tag(t: Id3TagView) -> XmInfoView {
    XmInfoView {
        title: frame_text(t, "TIT2"@),
        artist: frame_text(t, "TPE1"@),
        album: frame_text(t, "TALB"@),
        tracknumber: frame_number(t, "TRCK"@, u64::MAX as nat) as u64,
        size: frame_number(t, "TSIZ"@, usize::MAX as nat) as usize,
        header_size: t.header_tag_size as usize,
        isrc: frame_text(t, "TSRC"@),
        encodedby: frame_text(t, "TENC"@),
        encoding_technology: frame_text(t, "TSSE"@),
        has_cover: t.picture_count > 0,
        cover_url: match first_cover(t.comments) {
            Some(c) => Some(cover_link(c)),
            None => None,
        },
        duration_text: duration_text_of(t),
    }
}

/// The position of the first frame with the given id.
fn find_frame(frames: &Vec<Id3Frame>, id: &str) -> (r: Option<usize>)
    ensures
        match first_frame(frames@.map_values(|f: Id3Frame| f@), id@) {
            Some(f) => r matches Some(i) && i < frames.len() && frames@[i as int]@ == f,
            None => r is None,
        },
{
    let ghost fs = frames@.map_values(|f: Id3Frame| f@);
    let mut i: usize = 0;
    assert(fs.subrange(0, fs.len() as int) =~= fs);
    while i < frames.len()
        invariant
            i <= frames.len(),
            fs == frames@.map_values(|f: Id3Frame| f@),
            first_frame(fs, id@) == first_frame(fs.subrange(i as int, fs.len() as int), id@),
        decreases frames.len() - i,
    {
        let ghost rest = fs.subrange(i as int, fs.len() as int);
        assert(rest[0] == frames@[i as int]@);
        if same_text(frames[i].id.as_str(), id) {
            return Some(i);
        }
        assert(rest.drop_first() =~= fs.subrange(i + 1, fs.len() as int));
        i += 1;
    }
    None
}

/// The text of the first frame with this id, empty when it holds none.
fn frame_text_exec(tag: &Id3Tag, id: &str) -> (r: Option<String>)
    ensures
        opt_view(r) == frame_text(tag@, id@),
{
    match find_frame(&tag.frames, id) {
        Some(i) => match &tag.frames[i].text {
            Some(t) => Some(t.clone()),
            None => Some(String::new()),
        },
        None => None,
    }
}

/// The number in the first frame with this id, 0 when there is none to read.
fn frame_number_exec(tag: &Id3Tag, id: &str, max: u64) -> (r: u64)
    ensures
        r as nat == frame_number(tag@, id@, max as nat),
{
    match find_frame(&tag.frames, id) {
        Some(i) => match &tag.frames[i].text {
            Some(t) => {
                let cs = chars_of(t.as_str());
                match parse_unsigned_exec(&cs, max) {
                    Some(v) => v,
                    None => 0,
                }
            },
            None => 0,
        },
        None => 0,
    }
}

/// The text of the frame that gives the track length.
fn duration_text_exec(tag: &Id3Tag) -> (r: Option<String>)
    ensures
        opt_view(r) == duration_text_of(tag@),
{
    let found = match find_frame(&tag.frames, "TLEN") {
        Some(i) => Some(i),
        None => find_frame(&tag.frames, "TDLEN"),
    };
    match found {
        Some(i) => clone_opt(&tag.frames[i].text),
        None => None,
    }
}

/// Decides `is_cover_comment`.
fn is_cover_comment_exec(c: &[char]) -> (r: bool)
    ensures
        r == is_cover_comment(c@),
{
    let image = chars_of("image");
    let jpg = chars_of(".jpg");
    let png = chars_of(".png");
    let jpeg = chars_of(".jpeg");
    contains_exec(c, &image) && (ends_with_exec(c, &jpg) || ends_with_exec(c, &png)
        || ends_with_exec(c, &jpeg))
}

/// The cover link found among the comments.
fn cover_url_exec(comments: &Vec<String>) -> (r: Option<String>)
    ensures
        opt_view(r) == match first_cover(comments@.map_values(|c: String| c@)) {
            Some(c) => Some(cover_link(c)),
            None => None,
        },
{
    let ghost cs = comments@.map_values(|c: String| c@);
    let mut i: usize = 0;
    assert(cs.subrange(0, cs.len() as int) =~= cs);
    while i < comments.len()
        invariant
            i <= comments.len(),
            cs == comments@.map_values(|c: String| c@),
            first_cover(cs) == first_cover(cs.subrange(i as int, cs.len() as int)),
        decreases comments.len() - i,
    {
        let ghost rest = cs.subrange(i as int, cs.len() as int);
        let c = chars_of(comments[i].as_str());
        assert(rest[0] == c@);
        if is_cover_comment_exec(&c) {
            let slashes = chars_of("//");
            if starts_with_exec(&c, &slashes) {
                let https = chars_of("https:");
                let link = concat_of(&https, &c);
                return Some(string_of(&link));
            } else {
                return Some(string_of(&c));
            }
        }
        assert(rest.drop_first() =~= cs.subrange(i + 1, cs.len() as int));
        i += 1;
    }
    None
}

/// Where the IV comes from: the hex text of `TSRC`, or of `TENC` when there is no `TSRC`.
pub open spec fn iv_of(info: XmInfoView) -> Result<Seq<u8>, XmErrorView> {
    match info.isrc {
        Some(s) => match hex_decode(s) {
            Some(b) => Ok(b),
            None => Err(XmErrorView::DecryptionError("Invalid IV in ISRC"@)),
        },
        None => match info.encodedby {
            Some(s) => match hex_decode(s) {
                Some(b) => Ok(b),
                None => Err(XmErrorView::DecryptionError("Invalid IV in TENC"@)),
            },
            None => Err(XmErrorView::MissingMetadata("No IV found in ISRC or TENC tags"@)),
        },
    }
}

/// The value of a byte result.
pub open spec fn bytes_result_view(r: Result<Vec<u8>, XmError>) -> Result<Seq<u8>, XmErrorView> {
    match r {
        Ok(v) => Ok(v@),
        Err(e) => Err(e@),
    }
}

/// The output file name `XmInfo::file_name` gives: `artist - album - title.ext`, absent
/// fields empty, the extension from the header text (`m4a` by default), cleaned of the
/// characters a file name may not hold.
pub open spec fn file_name_of(info: XmInfoView, header: Seq<u8>) -> Seq<char> {
    compose_name(
        or_default(info.artist, Seq::empty()),
        or_default(info.album, Seq::empty()),
        or_default(info.title, Seq::empty()),
        extension_of(printable_lower(header), false),
    )
}

impl XmInfo {
    /// The output file name from the metadata and the file header.
    pub fn file_name(&self, header: &[u8]) -> (r: String)
        ensures
            r@ == file_name_of(self@, header@),
            forall|i: int| 0 <= i < r@.len() ==> !forbidden_chars().contains(#[trigger] r@[i]),
    {
        let h = printable_lower_exec(header);
        let ext = extension_exec(&h, false);
        proof {
            reveal_strlit("");
            assert(""@ =~= Seq::<char>::empty());
        }
        let artist = text_or(&self.artist, "");
        let album = text_or(&self.album, "");
        let title = text_or(&self.title, "");
        compose_name_exec(&artist, &album, &title, ext)
    }

    /// Reads the XM metadata from the tag's frames.
    pub fn from_tag(tag: &Id3Tag) -> (r: XmInfo)
        ensures
            r@ == xm_info_of_tag(tag@),
    {
        XmInfo {
            title: frame_text_exec(tag, "TIT2"),
            artist: frame_text_exec(tag, "TPE1"),
            album: frame_text_exec(tag, "TALB"),
            tracknumber: frame_number_exec(tag, "TRCK", u64::MAX),
            size: frame_number_exec(tag, "TSIZ", usize::MAX as u64) as usize,
            header_size: tag.header_tag_size,
            isrc: frame_text_exec(tag, "TSRC"),
            encodedby: frame_text_exec(tag, "TENC"),
            encoding_technology: frame_text_exec(tag, "TSSE"),
            has_cover: tag.picture_count > 0,
            cover_url: cover_url_exec(&tag.comments),
            duration_text: duration_text_exec(tag),
        }
    }

    /// The book name, which XM files keep in the album field.
    pub fn book_name(&self) -> (r: Option<&str>)
        ensures
            match r {
                Some(s) => self@.album == Some(s@),
                None => self@.album is None,
            },
    {
        match &self.album {
            Some(s) => Some(s.as_str()),
            None => None,
        }
    }

    /// The chapter title, from the title field.
    pub fn chapter_title(&self) -> (r: Option<&str>)
        ensures
            match r {
                Some(s) => self@.title == Some(s@),
                None => self@.title is None,
            },
    {
        match &self.title {
            Some(s) => Some(s.as_str()),
            None => None,
        }
    }

    /// The narrator, from the artist field.
    pub fn narrator(&self) -> (r: Option<&str>)
        ensures
            match r {
                Some(s) => self@.artist == Some(s@),
                None => self@.artist is None,
            },
    {
        match &self.artist {
            Some(s) => Some(s.as_str()),
            None => None,
        }
    }

    /// The chapter number, from the track number.
    pub fn chapter_number(&self) -> (r: u64)
        ensures
            r == self.tracknumber,
    {
        self.tracknumber
    }

    /// The IV for decryption.
    pub fn iv(&self) -> (r: Result<Vec<u8>, XmError>)
        ensures
            bytes_result_view(r) == iv_of(self@),
    {
        match &self.isrc {
            Some(isrc) => match hex_decode_str(isrc.as_str()) {
                Some(b) => Ok(b),
                None => Err(XmError::DecryptionError(String::from_str("Invalid IV in ISRC"))),
            },
            None => match &self.encodedby {
                Some(enc) => match hex_decode_str(enc.as_str()) {
                    Some(b) => Ok(b),
                    None => Err(XmError::DecryptionError(String::from_str("Invalid IV in TENC"))),
                },
                None => Err(
                    XmError::MissingMetadata(String::from_str("No IV found in ISRC or TENC tags")),
                ),
            },
        }
    }
}

/// What the `id3` crate reads from the start of `bytes`: the tag's frames (id and text)
/// in file order, the texts of its comment frames in file order, and the number of its
/// attached pictures; `None` when the crate finds no readable ID3v2 tag there.
pub uninterp spec fn id3_tag_of(bytes: Seq<u8>) -> Option<(Seq<Id3FrameView>, Seq<Seq<char>>, nat)>;

/// `id3::Tag::read_from` on the bytes, with each frame, comment and picture converted to
/// the library's model; on failure, the crate's error text.
#[verifier::external_body]
fn read_id3_frames(bytes: &[u8]) -> (r: Result<(Vec<Id3Frame>, Vec<String>, usize), String>)
    ensures
        match id3_tag_of(bytes@) {
            Some(t) => r matches Ok(x) && x.0@.map_values(|f: Id3Frame| f@) == t.0
                && x.1@.map_values(|c: String| c@) == t.1 && x.2 as nat == t.2,
            None => r is Err,
        },
{
    let tag = id3::Tag::read_from(bytes).map_err(|e| e.to_string())?;
    let mut frames = Vec::new();
    for f in tag.frames() {
        frames.push(Id3Frame { id: f.id().to_string(), text: f.content().text().map(|t| t.to_string()) });
    }
    let mut comments = Vec::new();
    for c in tag.comments() {
        comments.push(c.text.clone());
    }
    Ok((frames, comments, tag.pictures().count()))
}

/// The tag model for what the `id3` crate read from `bytes`: the size of the whole tag
/// comes from the ten-byte header (0 when it is not an ID3v2 header).
pub open spec fn tag_view_of(t: (Seq<Id3FrameView>, Seq<Seq<char>>, nat), bytes: Seq<u8>) -> Id3TagView {
    Id3TagView {
        frames: t.0,
        comments: t.1,
        picture_count: t.2,
        header_tag_size: match id3_size_of(bytes) {
            Some(n) => n as nat,
            None => 0,
        },
    }
}

/// The XM metadata of the ID3v2 tag at the start of `bytes`, or `None` when no tag can be
/// read there.
pub open spec fn xm_info_of_bytes(bytes: Seq<u8>) -> Option<XmInfoView> {
    match id3_tag_of(bytes) {
        Some(t) => Some(xm_info_of_tag(tag_view_of(t, bytes))),
        None => None,
    }
}

/// Reads the ID3v2 tag at the start of `bytes` (which hold at least the whole tag) and
/// extracts the XM metadata from it; an unreadable tag is an `Id3Error`.
pub fn extract_xm_info(bytes: &[u8]) -> (r: Result<XmInfo, XmError>)
    ensures
        match xm_info_of_bytes(bytes@) {
            Some(i) => r matches Ok(x) && x@ == i,
            None => r matches Err(e) && e@ is Id3Error,
        },
{
    match read_id3_frames(bytes) {
        Ok((frames, comments, picture_count)) => {
            let header_tag_size = match MetadataExtractor::get_id3_size(bytes) {
                Some(n) => n,
                None => 0,
            };
            let tag = Id3Tag { frames, comments, picture_count, header_tag_size };
            Ok(XmInfo::from_tag(&tag))
        },
        Err(e) => Err(XmError::Id3Error(e)),
    }
}

/// The AES-256 key of XM files: the bytes of `ximalaya`, four times.
pub open spec fn xm_key() -> Seq<u8> {
    let w = seq![0x78u8, 0x69u8, 0x6du8, 0x61u8, 0x6cu8, 0x61u8, 0x79u8, 0x61u8];
    w + w + w + w
}

/// The XM key bytes.
fn xm_key_bytes() -> (k: Vec<u8>)
    ensures
        k@ == xm_key(),
{
    let k = vec![
        0x78u8, 0x69u8, 0x6du8, 0x61u8, 0x6cu8, 0x61u8, 0x79u8, 0x61u8,
        0x78u8, 0x69u8, 0x6du8, 0x61u8, 0x6cu8, 0x61u8, 0x79u8, 0x61u8,
        0x78u8, 0x69u8, 0x6du8, 0x61u8, 0x6cu8, 0x61u8, 0x79u8, 0x61u8,
        0x78u8, 0x69u8, 0x6du8, 0x61u8, 0x6cu8, 0x61u8, 0x79u8, 0x61u8,
    ];
    assert(k@ =~= xm_key());
    k
}

/// The IV, when the tag gives one, has the 16 bytes of an AES block (the cipher cannot
/// be set up with any other length).
pub open spec fn iv_fits(info: XmInfoView) -> bool {
    iv_of(info) matches Ok(iv) ==> iv.len() == 16
}

/// The first stage of chunk decryption: the IV from the tag, then AES-256-CBC with the XM
/// key; its errors are those of `iv_of`, or a `DecryptionError` when the cipher refuses.
pub open spec fn aes_stage(info: XmInfoView, chunk: Seq<u8>) -> Result<Seq<u8>, XmErrorView> {
    match iv_of(info) {
        Err(e) => Err(e),
        Ok(iv) => match aes256_cbc_pkcs7_decrypt(chunk, xm_key(), iv) {
            Some(p) => Ok(p),
            None => Err(XmErrorView::DecryptionError("Failed to decrypt with AES-256-CBC"@)),
        },
    }
}

/// The Base64 prefix a file keeps in `TSSE` (empty without one).
pub open spec fn base64_prefix(info: XmInfoView) -> Seq<char> {
    or_default(info.encoding_technology, Seq::empty())
}

/// A message that starts with `lead`, inside a `DecryptionError`.
pub open spec fn decryption_error_led_by(x: XmErrorView, lead: Seq<char>) -> bool {
    x matches XmErrorView::DecryptionError(m) && starts_with(m, lead)
}

/// What the AES stage and the UTF-8 check give for `chunk`: the AES errors as they are;
/// the plaintext exactly when it is UTF-8; otherwise a `DecryptionError` starting with
/// `Invalid UTF-8: `.
pub open spec fn plaintext_outcome(info: XmInfoView, chunk: Seq<u8>, r: Result<Seq<u8>, XmErrorView>) -> bool {
    match aes_stage(info, chunk) {
        Err(e) => r == Err::<Seq<u8>, XmErrorView>(e),
        Ok(p) => if valid_utf8(p) {
            r == Ok::<Seq<u8>, XmErrorView>(p)
        } else {
            r matches Err(x) && decryption_error_led_by(x, "Invalid UTF-8: "@)
        },
    }
}

/// What the last step gives for the transform's output `t`: the Base64 decoding of the
/// prefix followed by `t`, or a `DecryptionError` starting with `Base64 decode failed: `
/// when that text is not Base64.
pub open spec fn finish_outcome(prefix: Seq<char>, t: Seq<char>, r: Result<Seq<u8>, XmErrorView>) -> bool {
    match base64_standard_decode(prefix + t) {
        Some(b) => r == Ok::<Seq<u8>, XmErrorView>(b),
        None => r matches Err(x) && decryption_error_led_by(x, "Base64 decode failed: "@),
    }
}

/// Chunk decryption after the transform gave `t`: its error as it is, or the last step
/// on its output.
pub open spec fn after_transform(info: XmInfoView, t: Result<Seq<char>, XmErrorView>, r: Result<Seq<u8>, XmErrorView>) -> bool {
    match t {
        Err(e) => r == Err::<Seq<u8>, XmErrorView>(e),
        Ok(s) => finish_outcome(base64_prefix(info), s, r),
    }
}

/// The track id handed to the transform: the ASCII bytes of the decimal track number.
pub open spec fn track_id_of(tracknumber: u64) -> Seq<u8> {
    decimal(tracknumber as nat).map_values(|c: char| c as u8)
}

/// What `decrypt_chunk` promises of its outcome `r` on `chunk`, with the record `call` of
/// the transform's call: the plaintext stage as `plaintext_outcome` says (no call then);
/// after it, the transform is run on the plaintext and the decimal track number, and `r`
/// is what the last step makes of the transform's outcome.
pub open spec fn decrypt_chunk_outcome(
    info: XmInfoView,
    chunk: Seq<u8>,
    call: Option<TransformCall>,
    r: Result<Seq<u8>, XmErrorView>,
) -> bool {
    match aes_stage(info, chunk) {
        Err(e) => r == Err::<Seq<u8>, XmErrorView>(e) && call is None,
        Ok(p) => if !valid_utf8(p) {
            call is None && (r matches Err(x) && decryption_error_led_by(x, "Invalid UTF-8: "@))
        } else {
            exists|t: Result<Seq<char>, XmErrorView>|
                #[trigger] native_outcome(p, track_id_of(info.tracknumber), call, t)
                && after_transform(info, t, r)
        },
    }
}

/// The value of a text result.
pub open spec fn text_result_view(r: Result<String, XmError>) -> Result<Seq<char>, XmErrorView> {
    match r {
        Ok(s) => Ok(s@),
        Err(e) => Err(e@),
    }
}

/// A whole-file outcome from a chunk outcome: the decrypted chunk followed by the plain
/// rest, or the chunk's error.
pub open spec fn with_rest(c: Result<Seq<u8>, XmErrorView>, rest: Seq<u8>) -> Result<Seq<u8>, XmErrorView> {
    match c {
        Ok(d) => Ok(d + rest),
        Err(e) => Err(e),
    }
}

/// A `DecryptionError` whose message is `lead` followed by `detail`.
fn decryption_error(lead: &str, detail: &str) -> (e: XmError)
    ensures
        e@ == XmErrorView::DecryptionError(lead@ + detail@),
{
    let l = chars_of(lead);
    let d = chars_of(detail);
    XmError::DecryptionError(string_of(&concat_of(&l, &d)))
}

/// The ASCII bytes of the decimal rendering of `n`.
fn decimal_bytes(n: u64) -> (out: Vec<u8>)
    ensures
        out@ == track_id_of(n),
{
    let digits = decimal_chars(n);
    let mut out: Vec<u8> = Vec::new();
    let mut i: usize = 0;
    while i < digits.len()
        invariant
            i <= digits.len(),
            digits@ == decimal(n as nat),
            out@ == digits@.subrange(0, i as int).map_values(|c: char| c as u8),
        decreases digits.len() - i,
    {
        #[verifier::truncate]
        let b: u8 = digits[i] as u8;
        out.push(b);
        i += 1;
        assert(out@ =~= digits@.subrange(0, i as int).map_values(|c: char| c as u8));
    }
    assert(digits@.subrange(0, digits@.len() as int) =~= digits@);
    out
}

/// The plaintext of an encrypted chunk: AES-256-CBC with the XM key and the tag's IV,
/// which must be UTF-8 text.
pub fn chunk_plaintext(xm_info: &XmInfo, encrypted_chunk: &[u8]) -> (r: Result<Vec<u8>, XmError>)
    requires
        iv_fits(xm_info@),
    ensures
        plaintext_outcome(xm_info@, encrypted_chunk@, bytes_result_view(r)),
{
    let iv = match xm_info.iv() {
        Ok(iv) => iv,
        Err(e) => return Err(e),
    };
    let key = xm_key_bytes();
    let plain = match aes256_cbc_decrypt(encrypted_chunk, &key, &iv) {
        Some(p) => p,
        None => return Err(XmError::DecryptionError(String::from_str("Failed to decrypt with AES-256-CBC"))),
    };
    let copy = sub_of(&plain, 0, plain.len());
    assert(plain@.subrange(0, plain.len() as int) =~= plain@);
    match utf8_string(copy) {
        Ok(_) => Ok(plain),
        Err(e) => {
            let x = decryption_error("Invalid UTF-8: ", e.as_str());
            proof {
                let lead = "Invalid UTF-8: "@;
                assert((lead + e@).subrange(0, lead.len() as int) =~= lead);
            }
            Err(x)
        },
    }
}

/// The last step of chunk decryption: Base64 decoding of the `TSSE` prefix (empty when
/// absent) followed by the transform's output.
pub fn finish_chunk(encoding_technology: &Option<String>, transformed: &str) -> (r: Result<Vec<u8>, XmError>)
    ensures
        finish_outcome(or_default(opt_view(*encoding_technology), Seq::empty()), transformed@, bytes_result_view(r)),
{
    proof {
        reveal_strlit("");
        assert(""@ =~= Seq::<char>::empty());
    }
    let prefix = text_or(encoding_technology, "");
    let body = chars_of(transformed);
    let full = string_of(&concat_of(&prefix, &body));
    match base64_decode(full.as_str()) {
        Ok(d) => Ok(d),
        Err(e) => {
            let x = decryption_error("Base64 decode failed: ", e.as_str());
            proof {
                let lead = "Base64 decode failed: "@;
                assert((lead + e@).subrange(0, lead.len() as int) =~= lead);
            }
            Err(x)
        },
    }
}

/// Decrypts the encrypted chunk of an XM file: AES-256-CBC with the XM key and the tag's
/// IV, the XM transform module (`xm_module`) on the resulting text and the decimal track
/// number, then Base64 decoding of the `TSSE` prefix followed by the transform's output.
/// Returns the result with the record of the transform's call.
pub fn decrypt_chunk(xm_info: &XmInfo, encrypted_chunk: &[u8], xm_module: &[u8]) -> (r: (
    Result<Vec<u8>, XmError>,
    Ghost<Option<TransformCall>>,
))
    requires
        iv_fits(xm_info@),
    ensures
        decrypt_chunk_outcome(xm_info@, encrypted_chunk@, r.1@, bytes_result_view(r.0)),
{
    let plain = match chunk_plaintext(xm_info, encrypted_chunk) {
        Ok(p) => p,
        Err(e) => return (Err(e), Ghost(None)),
    };
    let track_id = decimal_bytes(xm_info.tracknumber);
    let (transformed, call) = decrypt_chunk_native(&plain, &track_id, xm_module);
    let ghost t = text_result_view(transformed);
    let r = match transformed {
        Ok(s) => finish_chunk(&xm_info.encoding_technology, s.as_str()),
        Err(e) => Err(e),
    };
    assert(native_outcome(plain@, track_id_of(xm_info.tracknumber), call@, t) && after_transform(
        xm_info@,
        t,
        bytes_result_view(r),
    ));
    assert(native_outcome(plain@, track_id_of(xm_info@.tracknumber), call@, t));
    (r, call)
}

/// Decrypts a whole XM file: only the chunk after the tag (`size` bytes from
/// `header_size`) is encrypted; the rest of the file is already plain audio and is
/// appended unchanged. The outcome is that of decrypting the chunk, followed by the rest;
/// it comes with the record of the transform's call.
pub fn decrypt(xm_info: &XmInfo, content: &[u8], xm_module: &[u8]) -> (r: (
    Result<Vec<u8>, XmError>,
    Ghost<Option<TransformCall>>,
))
    requires
        xm_info.header_size + xm_info.size <= content.len(),
        iv_fits(xm_info@),
    ensures
        ({
            let h = xm_info.header_size as int;
            let e = h + xm_info.size;
            exists|c: Result<Seq<u8>, XmErrorView>|
                #[trigger] decrypt_chunk_outcome(xm_info@, content@.subrange(h, e), r.1@, c)
                && bytes_result_view(r.0) == with_rest(c, content@.subrange(e, content.len() as int))
        }),
{
    let start = xm_info.header_size;
    let end = xm_info.header_size + xm_info.size;
    let encrypted_data = sub_of(content, start, end);
    let (chunk_result, call) = decrypt_chunk(xm_info, &encrypted_data, xm_module);
    let ghost c = bytes_result_view(chunk_result);
    let r = append_rest(chunk_result, content, end);
    assert(decrypt_chunk_outcome(
        xm_info@,
        content@.subrange(xm_info.header_size as int, xm_info.header_size as int + xm_info.size),
        call@,
        c,
    ));
    let ghost rv = bytes_result_view(r);
    let ret = (r, call);
    assert(ret.1@ == call@);
    assert(bytes_result_view(ret.0) == rv);
    ret
}

/// The whole-file result from the chunk's: the decrypted chunk followed by the bytes of
/// `content` from `end` on, or the chunk's error.
pub fn append_rest(chunk_result: Result<Vec<u8>, XmError>, content: &[u8], end: usize) -> (r: Result<Vec<u8>, XmError>)
    requires
        end <= content.len(),
    ensures
        bytes_result_view(r) == with_rest(bytes_result_view(chunk_result), content@.subrange(end as int, content.len() as int)),
{
    match chunk_result {
        Ok(d) => {
            let rest = sub_of(content, end, content.len());
            Ok(concat_of(&d, &rest))
        },
        Err(e) => Err(e),
    }
}

/// A successful chunk decryption is fixed by its transform call: two successes with the
/// same record of the call give the same bytes (the transform's output is read from the
/// memory after the call, and the last step is a function of it).
pub proof fn lemma_chunk_success_fixed_by_call(
    info: XmInfoView,
    chunk: Seq<u8>,
    call: Option<TransformCall>,
    d1: Seq<u8>,
    d2: Seq<u8>,
)
    requires
        decrypt_chunk_outcome(info, chunk, call, Ok(d1)),
        decrypt_chunk_outcome(info, chunk, call, Ok(d2)),
    ensures
        d1 == d2,
{
    if let Ok(p) = aes_stage(info, chunk) {
        if valid_utf8(p) {
            let tr = track_id_of(info.tracknumber);
            let t1 = choose|t: Result<Seq<char>, XmErrorView>|
                #[trigger] native_outcome(p, tr, call, t) && after_transform(info, t, Ok(d1));
            let t2 = choose|t: Result<Seq<char>, XmErrorView>|
                #[trigger] native_outcome(p, tr, call, t) && after_transform(info, t, Ok(d2));
            assert(t1 == t2);
        }
    }
}

/// The number a sequence of ASCII decimal digit bytes spells, most significant first.
pub open spec fn ascii_decimal_value(s: Seq<u8>) -> nat
    decreases s.len(),
{
    if s.len() == 0 {
        0
    } else {
        ascii_decimal_value(s.drop_last()) * 10 + (s.last() - 48) as nat
    }
}

/// The byte of the decimal digit character for `d`.
proof fn lemma_digit_char_byte(d: nat)
    requires
        d < 10,
    ensures
        digit_char(d) as u8 == 48 + d,
{
    if d == 0 {
        assert('0' as u8 == 48);
    } else if d == 1 {
        assert('1' as u8 == 49);
    } else if d == 2 {
        assert('2' as u8 == 50);
    } else if d == 3 {
        assert('3' as u8 == 51);
    } else if d == 4 {
        assert('4' as u8 == 52);
    } else if d == 5 {
        assert('5' as u8 == 53);
    } else if d == 6 {
        assert('6' as u8 == 54);
    } else if d == 7 {
        assert('7' as u8 == 55);
    } else if d == 8 {
        assert('8' as u8 == 56);
    } else {
        assert('9' as u8 == 57);
    }
}

/// The track id handed to the transform is the plain decimal rendering of the track
/// number: ASCII digits whose value is the number, with no leading `0` unless the number
/// is 0 (track 5 gives exactly the byte `0x35`).
pub proof fn lemma_track_id_is_plain_decimal(n: u64)
    ensures
        track_id_of(n).len() > 0,
        forall|i: int| 0 <= i < track_id_of(n).len() ==> 0x30 <= #[trigger] track_id_of(n)[i] <= 0x39,
        ascii_decimal_value(track_id_of(n)) == n,
        track_id_of(n)[0] == 0x30 ==> n == 0,
    decreases n,
{
    if n < 10 {
        lemma_digit_char_byte(n as nat);
        assert(track_id_of(n) =~= seq![(48 + n) as u8]);
        assert(ascii_decimal_value(seq![(48 + n) as u8]) == n) by {
            let one = seq![(48 + n) as u8];
            assert(one.drop_last() =~= Seq::<u8>::empty());
            assert(ascii_decimal_value(Seq::<u8>::empty()) == 0);
            assert(one.last() == (48 + n) as u8);
        }
    } else {
        let m: u64 = n / 10;
        let d: nat = (n % 10) as nat;
        lemma_track_id_is_plain_decimal(m);
        lemma_digit_char_byte(d);
        assert(decimal(n as nat) == decimal(m as nat).push(digit_char(d)));
        assert(track_id_of(n) =~= track_id_of(m).push(digit_char(d) as u8));
        let t = track_id_of(n);
        assert(t.drop_last() =~= track_id_of(m));
        assert(ascii_decimal_value(t) == ascii_decimal_value(track_id_of(m)) * 10 + d);
        assert(t[0] == track_id_of(m)[0]);
    }
}

/// The cover link read from a tag is its first comment that mentions `image` and ends in
/// `.jpg`, `.png` or `.jpeg` (a link starting with `//` completed with `https:`); with no
/// such comment there is none.
pub proof fn lemma_cover_is_first_image_link(t: Id3TagView)
    ensures
        forall|i: int|
            #![trigger t.comments[i]]
            0 <= i < t.comments.len() && contains(t.comments[i], "image"@) && (ends_with(
                t.comments[i],
                ".jpg"@,
            ) || ends_with(t.comments[i], ".png"@) || ends_with(t.comments[i], ".jpeg"@))
                && (forall|j: int|
                0 <= j < i ==> !(contains(t.comments[j], "image"@) && (ends_with(
                    t.comments[j],
                    ".jpg"@,
                ) || ends_with(t.comments[j], ".png"@) || ends_with(t.comments[j], ".jpeg"@))))
                ==> xm_info_of_tag(t).cover_url == Some(
                if starts_with(t.comments[i], "//"@) {
                    "https:"@ + t.comments[i]
                } else {
                    t.comments[i]
                },
            ),
        (forall|j: int|
            0 <= j < t.comments.len() ==> !(contains(t.comments[j], "image"@) && (ends_with(
                t.comments[j],
                ".jpg"@,
            ) || ends_with(t.comments[j], ".png"@) || ends_with(t.comments[j], ".jpeg"@))))
            ==> xm_info_of_tag(t).cover_url is None,
{
    lemma_first_cover_scan(t.comments);
}

/// `first_cover` finds the first comment that mentions `image` and ends in a picture
/// extension, or nothing when no comment does.
proof fn lemma_first_cover_scan(cs: Seq<Seq<char>>)
    ensures
        forall|i: int|
            0 <= i < cs.len() && contains(cs[i], "image"@) && (ends_with(cs[i], ".jpg"@)
                || ends_with(cs[i], ".png"@) || ends_with(cs[i], ".jpeg"@)) && (forall|j: int|
                0 <= j < i ==> !(contains(cs[j], "image"@) && (ends_with(cs[j], ".jpg"@)
                    || ends_with(cs[j], ".png"@) || ends_with(cs[j], ".jpeg"@)))) ==> #[trigger] cs[i]
                == first_cover(cs)->Some_0 && first_cover(cs) is Some,
        (forall|j: int|
            0 <= j < cs.len() ==> !(contains(cs[j], "image"@) && (ends_with(cs[j], ".jpg"@)
                || ends_with(cs[j], ".png"@) || ends_with(cs[j], ".jpeg"@)))) ==> first_cover(
            cs,
        ) is None,
    decreases cs.len(),
{
    if cs.len() > 0 {
        let rest = cs.drop_first();
        lemma_first_cover_scan(rest);
        assert forall|i: int|
            0 <= i < cs.len() && contains(cs[i], "image"@) && (ends_with(cs[i], ".jpg"@)
                || ends_with(cs[i], ".png"@) || ends_with(cs[i], ".jpeg"@)) && (forall|j: int|
                0 <= j < i ==> !(contains(cs[j], "image"@) && (ends_with(cs[j], ".jpg"@)
                    || ends_with(cs[j], ".png"@) || ends_with(cs[j], ".jpeg"@)))) implies #[trigger] cs[i]
                == first_cover(cs)->Some_0 && first_cover(cs) is Some by {
            if i > 0 {
                assert(!(contains(cs[0], "image"@) && (ends_with(cs[0], ".jpg"@) || ends_with(
                    cs[0],
                    ".png"@,
                ) || ends_with(cs[0], ".jpeg"@))));
                assert(rest[i - 1] == cs[i]);
                assert forall|j: int| 0 <= j < i - 1 implies !(contains(rest[j], "image"@) && (
                ends_with(rest[j], ".jpg"@) || ends_with(rest[j], ".png"@) || ends_with(
                    rest[j],
                    ".jpeg"@,
                ))) by {
                    assert(rest[j] == cs[j + 1]);
                }
            }
        }
        if forall|j: int|
            0 <= j < cs.len() ==> !(contains(cs[j], "image"@) && (ends_with(cs[j], ".jpg"@)
                || ends_with(cs[j], ".png"@) || ends_with(cs[j], ".jpeg"@))) {
            assert(!(contains(cs[0], "image"@) && (ends_with(cs[0], ".jpg"@) || ends_with(
                cs[0],
                ".png"@,
            ) || ends_with(cs[0], ".jpeg"@))));
            assert forall|j: int| 0 <= j < rest.len() implies !(contains(rest[j], "image"@) && (
            ends_with(rest[j], ".jpg"@) || ends_with(rest[j], ".png"@) || ends_with(
                rest[j],
                ".jpeg"@,
            ))) by {
                assert(rest[j] == cs[j + 1]);
            }
        }
    }
}

/// A tag whose `TRCK` frame holds the decimal rendering of `n` reads as track `n`.
pub proof fn lemma_track_number_read(t: Id3TagView, n: u64)
    requires
        first_frame(t.frames, "TRCK"@) matches Some(f) && f.text == Some(decimal(n as nat)),
    ensures
        xm_info_of_tag(t).tracknumber == n,
{
    lemma_parse_decimal_roundtrip(n as nat, u64::MAX as nat);
}

/// Where the IV comes from: `TSRC` when the tag has it, whatever `TENC` holds; else
/// `TENC`; a tag with neither has no IV. A source holding the hex text of `b` gives `b`.
pub proof fn lemma_iv_source(info: XmInfoView, b: Seq<u8>)
    ensures
        info.isrc == Some(hex_encode(b)) ==> iv_of(info) == Ok::<Seq<u8>, XmErrorView>(b),
        info.isrc is None && info.encodedby == Some(hex_encode(b)) ==> iv_of(info) == Ok::<
            Seq<u8>,
            XmErrorView,
        >(b),
        info.isrc is None && info.encodedby is None ==> (iv_of(info) matches Err(e)
            && e is MissingMetadata),
{
    lemma_hex_roundtrip(b);
}

/// The XM key is the ASCII text `ximalaya` four times over: 32 bytes, byte `i` being
/// character `i % 8` of `ximalaya`.
pub proof fn lemma_xm_key_text()
    ensures
        xm_key().len() == 32,
        forall|i: int| 0 <= i < 32 ==> #[trigger] xm_key()[i] == "ximalaya"@[i % 8] as u8,
{
    reveal_strlit("ximalaya");
    let k = xm_key();
    let w = "ximalaya"@;
    assert(w[0] as u8 == 0x78u8 && w[1] as u8 == 0x69u8 && w[2] as u8 == 0x6du8 && w[3] as u8
        == 0x61u8 && w[4] as u8 == 0x6cu8 && w[5] as u8 == 0x61u8 && w[6] as u8 == 0x79u8
        && w[7] as u8 == 0x61u8);
    assert forall|i: int| 0 <= i < 32 implies #[trigger] k[i] == w[i % 8] as u8 by {
        assert(k[i] == k[i % 8]);
    }
}

/// `first_frame` finds the first frame with the id, or nothing when no frame has it.
pub proof fn lemma_first_frame_scan(fs: Seq<Id3FrameView>, id: Seq<char>)
    ensures
        forall|i: int|
            #![trigger fs[i]]
            0 <= i < fs.len() && fs[i].id == id && (forall|j: int| 0 <= j < i ==> fs[j].id != id)
                ==> first_frame(fs, id) == Some(fs[i]),
        (forall|j: int| 0 <= j < fs.len() ==> fs[j].id != id) ==> first_frame(fs, id) is None,
    decreases fs.len(),
{
    if fs.len() > 0 {
        let rest = fs.drop_first();
        lemma_first_frame_scan(rest, id);
        assert forall|i: int|
            #![trigger fs[i]]
            0 <= i < fs.len() && fs[i].id == id && (forall|j: int| 0 <= j < i ==> fs[j].id != id)
                implies first_frame(fs, id) == Some(fs[i]) by {
            if i > 0 {
                assert(fs[0].id != id);
                assert(rest[i - 1] == fs[i]);
                assert forall|j: int| 0 <= j < i - 1 implies rest[j].id != id by {
                    assert(rest[j] == fs[j + 1]);
                }
            }
        }
        if forall|j: int| 0 <= j < fs.len() ==> fs[j].id != id {
            assert(fs[0].id != id);
            assert forall|j: int| 0 <= j < rest.len() implies rest[j].id != id by {
                assert(rest[j] == fs[j + 1]);
            }
        }
    }
}

/// Which frame gives which field: title `TIT2`, artist `TPE1`, album `TALB`, IV text
/// `TSRC` and `TENC`, Base64 prefix `TSSE`, each from the frame's text (empty when the
/// frame holds none) and absent without the frame; the length text from `TLEN`, or from
/// `TDLEN` when there is no `TLEN`; the encrypted size from `TSIZ` and the track number
/// from `TRCK`, read as decimal numbers.
pub proof fn lemma_fields_from_frames(t: Id3TagView, v: Seq<char>, n: nat)
    ensures
        first_frame(t.frames, "TIT2"@) is None ==> xm_info_of_tag(t).title is None,
        first_frame(t.frames, "TIT2"@) matches Some(f) ==> f.text == Some(v) ==> xm_info_of_tag(t).title == Some(v),
        first_frame(t.frames, "TPE1"@) is None ==> xm_info_of_tag(t).artist is None,
        first_frame(t.frames, "TPE1"@) matches Some(f) ==> f.text == Some(v) ==> xm_info_of_tag(t).artist == Some(v),
        first_frame(t.frames, "TALB"@) is None ==> xm_info_of_tag(t).album is None,
        first_frame(t.frames, "TALB"@) matches Some(f) ==> f.text == Some(v) ==> xm_info_of_tag(t).album == Some(v),
        first_frame(t.frames, "TSRC"@) is None ==> xm_info_of_tag(t).isrc is None,
        first_frame(t.frames, "TSRC"@) matches Some(f) ==> f.text == Some(v) ==> xm_info_of_tag(t).isrc == Some(v),
        first_frame(t.frames, "TENC"@) is None ==> xm_info_of_tag(t).encodedby is None,
        first_frame(t.frames, "TENC"@) matches Some(f) ==> f.text == Some(v) ==> xm_info_of_tag(t).encodedby == Some(v),
        first_frame(t.frames, "TSSE"@) is None ==> xm_info_of_tag(t).encoding_technology is None,
        first_frame(t.frames, "TSSE"@) matches Some(f) ==> f.text == Some(v) ==> xm_info_of_tag(t).encoding_technology == Some(v),
        first_frame(t.frames, "TLEN"@) matches Some(f) ==> xm_info_of_tag(t).duration_text == f.text,
        first_frame(t.frames, "TLEN"@) is None ==> xm_info_of_tag(t).duration_text == match first_frame(t.frames, "TDLEN"@) {
            Some(f) => f.text,
            None => None::<Seq<char>>,
        },
        n <= usize::MAX ==> (first_frame(t.frames, "TSIZ"@) matches Some(f) ==> f.text == Some(decimal(n)) ==> xm_info_of_tag(t).size == n),
        n <= u64::MAX ==> (first_frame(t.frames, "TRCK"@) matches Some(f) ==> f.text == Some(decimal(n)) ==> xm_info_of_tag(t).tracknumber == n),
        first_frame(t.frames, "TRCK"@) is None ==> xm_info_of_tag(t).tracknumber == 0,
        t.picture_count > 0 <==> xm_info_of_tag(t).has_cover,
        xm_info_of_tag(t).header_size == t.header_tag_size as usize,
{
    if n <= usize::MAX {
        lemma_parse_decimal_roundtrip(n, usize::MAX as nat);
    }
    if n <= u64::MAX {
        lemma_parse_decimal_roundtrip(n, u64::MAX as nat);
    }
}

} // verus!
