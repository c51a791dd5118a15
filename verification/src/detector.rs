//! Recognising XM files, validating their metadata against the file, and reporting
//! signs of corruption.
use vstd::prelude::*;
use crate::codec::{hex_decode, hex_decode_str};
use crate::text::{chars_of, concat_of, contains, contains_exec, decimal, decimal_chars, string_of};
use crate::xm::{XmInfo, XmInfoView};

verus! {

/// Recognises and checks XM files.
pub struct XmDetector;

/// The text the IV is read from: `TSRC`, or `TENC` when there is no `TSRC`.
pub open spec fn iv_text(info: XmInfoView) -> Option<Seq<char>> {
    match info.isrc {
        Some(s) => Some(s),
        None => info.encodedby,
    }
}

/// XM metadata is usable: an encrypted size, and an IV given as hex.
pub open spec fn valid_xm_info(info: XmInfoView) -> bool {
    &&& info.size != 0
    &&& iv_text(info) matches Some(t)
    &&& hex_decode(t) is Some
}

/// The header starts with the `ID3` magic.
pub open spec fn has_id3_magic(header: Seq<u8>) -> bool {
    header.len() >= 3 && header[0] == 0x49 && header[1] == 0x44 && header[2] == 0x33
}

/// A one-message list when `c` holds, else the empty list.
pub open spec fn item_if(c: bool, m: Seq<char>) -> Seq<Seq<char>> {
    if c {
        seq![m]
    } else {
        Seq::empty()
    }
}

/// The issue about the encrypted size: missing, or reaching past the end of the file.
pub open spec fn size_issue_of(info: XmInfoView, file_size: nat) -> Seq<Seq<char>> {
    let total = info.header_size + info.size;
    if info.size == 0 {
        seq!["TSIZ field is 0 or missing"@]
    } else if total > file_size {
        seq![
            "Encrypted data size ("@ + decimal(total as nat) + ") exceeds file size ("@ + decimal(
                file_size,
            ) + ")"@,
        ]
    } else {
        Seq::empty()
    }
}

/// The issue about the IV: absent, or not hex.
pub open spec fn iv_issue_of(info: XmInfoView) -> Seq<Seq<char>> {
    match iv_text(info) {
        None => seq!["No IV found (TSRC or TENC missing)"@],
        Some(t) => item_if(hex_decode(t) is None, "IV is not valid hex string"@),
    }
}

/// The warning about the IV: hex, but not 16 bytes long.
pub open spec fn iv_warning_of(info: XmInfoView) -> Seq<Seq<char>> {
    match iv_text(info) {
        Some(t) => match hex_decode(t) {
            Some(iv) => item_if(
                iv.len() != 16,
                "IV length is "@ + decimal(iv.len()) + " bytes (expected 16)"@,
            ),
            None => Seq::empty(),
        },
        None => Seq::empty(),
    }
}

/// The warnings about missing descriptive fields.
pub open spec fn field_warnings_of(info: XmInfoView) -> Seq<Seq<char>> {
    item_if(info.title is None, "Title (TIT2) is missing"@) + item_if(
        info.artist is None,
        "Artist (TPE1) is missing"@,
    ) + item_if(info.album is None, "Album (TALB) is missing"@) + item_if(
        info.tracknumber == 0,
        "Track number (TRCK) is 0 or missing"@,
    )
}

/// The issues about the tag size: too small, or past the end of the file.
pub open spec fn header_issues_of(info: XmInfoView, file_size: nat) -> Seq<Seq<char>> {
    item_if(
        info.header_size < 10,
        "ID3 header size too small: "@ + decimal(info.header_size as nat),
    ) + item_if(
        info.header_size > file_size,
        "ID3 header size ("@ + decimal(info.header_size as nat) + ") exceeds file size ("@
            + decimal(file_size) + ")"@,
    )
}

/// The problems that prevent decryption, in the order they are checked.
pub open spec fn validation_issues(info: XmInfoView, file_size: nat) -> Seq<Seq<char>> {
    size_issue_of(info, file_size) + iv_issue_of(info) + header_issues_of(info, file_size)
}

/// The non-critical findings, in the order they are checked.
pub open spec fn validation_warnings(info: XmInfoView) -> Seq<Seq<char>> {
    iv_warning_of(info) + field_warnings_of(info)
}

/// The texts of a list of strings.
pub open spec fn texts(v: Seq<String>) -> Seq<Seq<char>> {
    v.map_values(|s: String| s@)
}

/// The result of validating an XM file.
#[derive(Debug)]
pub struct ValidationResult {
    pub is_valid: bool,
    pub issues: Vec<String>,
    pub warnings: Vec<String>,
    pub metadata: XmInfo,
}

/// The value of a `ValidationResult`.
pub struct ValidationResultView {
    pub is_valid: bool,
    pub issues: Seq<Seq<char>>,
    pub warnings: Seq<Seq<char>>,
    pub metadata: XmInfoView,
}

impl View for ValidationResult {
    type V = ValidationResultView;

    open spec fn view(&self) -> ValidationResultView {
        ValidationResultView {
            is_valid: self.is_valid,
            issues: texts(self.issues@),
            warnings: texts(self.warnings@),
            metadata: self.metadata@,
        }
    }
}

/// The outcome of validating `info` for a file of `file_size` bytes.
pub open spec fn validation_of(info: XmInfoView, file_size: nat) -> ValidationResultView {
    ValidationResultView {
        is_valid: validation_issues(info, file_size).len() == 0,
        issues: validation_issues(info, file_size),
        warnings: validation_warnings(info),
        metadata: info,
    }
}

/// What an issue says about corruption.
pub open spec fn indicators_for(issue: Seq<char>) -> Seq<Seq<char>> {
    item_if(contains(issue, "exceeds file size"@), "Data size mismatch"@) + item_if(
        contains(issue, "header size"@),
        "Invalid header size"@,
    ) + item_if(contains(issue, "not valid hex"@), "Corrupted IV data"@)
}

/// The corruption indicators of a list of issues, issue by issue.
pub open spec fn corruption_indicators(issues: Seq<Seq<char>>) -> Seq<Seq<char>>
    decreases issues.len(),
{
    if issues.len() == 0 {
        Seq::empty()
    } else {
        corruption_indicators(issues.drop_last()) + indicators_for(issues.last())
    }
}

/// Corruption detection report.
#[derive(Debug)]
pub struct CorruptionReport {
    pub is_corrupted: bool,
    pub indicators: Vec<String>,
    pub validation_result: ValidationResult,
}

/// The value of a `CorruptionReport`.
pub struct CorruptionReportView {
    pub is_corrupted: bool,
    pub indicators: Seq<Seq<char>>,
    pub validation_result: ValidationResultView,
}

impl View for CorruptionReport {
    type V = CorruptionReportView;

    open spec fn view(&self) -> CorruptionReportView {
        CorruptionReportView {
            is_corrupted: self.is_corrupted,
            indicators: texts(self.indicators@),
            validation_result: self.validation_result@,
        }
    }
}

/// The lines of `s` joined with newlines.
pub open spec fn join_lines(s: Seq<Seq<char>>) -> Seq<char>
    decreases s.len(),
{
    if s.len() == 0 {
        Seq::empty()
    } else if s.len() == 1 {
        s[0]
    } else {
        join_lines(s.drop_last()) + seq!['\n'] + s.last()
    }
}

/// Appends one message to a list of messages.
fn push_text(v: &mut Vec<String>, s: String)
    ensures
        texts(final(v)@) == texts(old(v)@).push(s@),
{
    v.push(s);
    assert(texts(v@) =~= texts(old(v)@).push(s@));
}

/// `a`, the decimal rendering of `n`, then `b`.
fn message_with_number(a: &str, n: u64, b: &str) -> (r: String)
    ensures
        r@ == a@ + decimal(n as nat) + b@,
{
    let x = concat_of(&chars_of(a), &decimal_chars(n));
    string_of(&concat_of(&x, &chars_of(b)))
}

/// `a`, `n`, `b`, `m`, `c`, with the numbers in decimal.
fn message_with_numbers(a: &str, n: u64, b: &str, m: u64, c: &str) -> (r: String)
    ensures
        r@ == a@ + decimal(n as nat) + b@ + decimal(m as nat) + c@,
{
    let x = concat_of(&chars_of(a), &decimal_chars(n));
    let y = concat_of(&x, &chars_of(b));
    let z = concat_of(&y, &decimal_chars(m));
    string_of(&concat_of(&z, &chars_of(c)))
}

/// Adds to `out` the corruption indicators of one issue.
fn push_indicators(out: &mut Vec<String>, issue: &String)
    ensures
        texts(final(out)@) == texts(old(out)@) + indicators_for(issue@),
{
    let ghost start = texts(out@);
    let c = chars_of(issue.as_str());
    if contains_exec(&c, &chars_of("exceeds file size")) {
        push_text(out, String::from_str("Data size mismatch"));
    }
    let ghost mid1 = texts(out@);
    assert(mid1 =~= start + item_if(contains(issue@, "exceeds file size"@), "Data size mismatch"@));
    if contains_exec(&c, &chars_of("header size")) {
        push_text(out, String::from_str("Invalid header size"));
    }
    let ghost mid2 = texts(out@);
    assert(mid2 =~= mid1 + item_if(contains(issue@, "header size"@), "Invalid header size"@));
    if contains_exec(&c, &chars_of("not valid hex")) {
        push_text(out, String::from_str("Corrupted IV data"));
    }
    assert(texts(out@) =~= mid2 + item_if(contains(issue@, "not valid hex"@), "Corrupted IV data"@));
}

/// The messages of `a` followed by those of `b`.
fn append_texts(a: Vec<String>, b: Vec<String>) -> (r: Vec<String>)
    ensures
        texts(r@) == texts(a@) + texts(b@),
{
    let mut r = a;
    let mut i: usize = 0;
    assert(texts(r@) =~= texts(a@) + texts(b@.take(0)));
    while i < b.len()
        invariant
            i <= b.len(),
            texts(r@) == texts(a@) + texts(b@.take(i as int)),
        decreases b.len() - i,
    {
        push_text(&mut r, b[i].clone());
        assert(texts(b@.take(i + 1)) =~= texts(b@.take(i as int)).push(b@[i as int]@));
        i += 1;
    }
    assert(b@.take(i as int) =~= b@);
    r
}

/// A list holding one message.
fn single(s: String) -> (r: Vec<String>)
    ensures
        texts(r@) == seq![s@],
{
    let mut v: Vec<String> = Vec::new();
    push_text(&mut v, s);
    assert(texts(v@) =~= seq![s@]);
    v
}

/// An empty list of messages.
fn none() -> (r: Vec<String>)
    ensures
        texts(r@) == Seq::<Seq<char>>::empty(),
{
    let v: Vec<String> = Vec::new();
    assert(texts(v@) =~= Seq::<Seq<char>>::empty());
    v
}

fn size_issue_exec(info: &XmInfo, file_size: u64) -> (r: Vec<String>)
    requires
        info.header_size + info.size <= usize::MAX,
    ensures
        texts(r@) == size_issue_of(info@, file_size as nat),
{
    let total: usize = info.header_size + info.size;
    if info.size == 0 {
        single(String::from_str("TSIZ field is 0 or missing"))
    } else if total as u64 > file_size {
        single(
            message_with_numbers(
                "Encrypted data size (",
                total as u64,
                ") exceeds file size (",
                file_size,
                ")",
            ),
        )
    } else {
        none()
    }
}

fn iv_findings(info: &XmInfo) -> (r: (Vec<String>, Vec<String>))
    ensures
        texts(r.0@) == iv_issue_of(info@),
        texts(r.1@) == iv_warning_of(info@),
{
    let iv_source: Option<&String> = match &info.isrc {
        Some(s) => Some(s),
        None => match &info.encodedby {
            Some(s) => Some(s),
            None => None,
        },
    };
    match iv_source {
        None => (single(String::from_str("No IV found (TSRC or TENC missing)")), none()),
        Some(t) => match hex_decode_str(t.as_str()) {
            Some(iv) => {
                if iv.len() != 16 {
                    (
                        none(),
                        single(
                            message_with_number(
                                "IV length is ",
                                iv.len() as u64,
                                " bytes (expected 16)",
                            ),
                        ),
                    )
                } else {
                    (none(), none())
                }
            },
            None => (single(String::from_str("IV is not valid hex string")), none()),
        },
    }
}

fn field_warnings_exec(info: &XmInfo) -> (r: Vec<String>)
    ensures
        texts(r@) == field_warnings_of(info@),
{
    let mut w: Vec<String> = Vec::new();
    let ghost w0 = texts(w@);
    assert(w0 =~= Seq::<Seq<char>>::empty());
    if info.title.is_none() {
        push_text(&mut w, String::from_str("Title (TIT2) is missing"));
    }
    let ghost w1 = texts(w@);
    assert(w1 =~= w0 + item_if(info@.title is None, "Title (TIT2) is missing"@));
    if info.artist.is_none() {
        push_text(&mut w, String::from_str("Artist (TPE1) is missing"));
    }
    let ghost w2 = texts(w@);
    assert(w2 =~= w1 + item_if(info@.artist is None, "Artist (TPE1) is missing"@));
    if info.album.is_none() {
        push_text(&mut w, String::from_str("Album (TALB) is missing"));
    }
    let ghost w3 = texts(w@);
    assert(w3 =~= w2 + item_if(info@.album is None, "Album (TALB) is missing"@));
    if info.tracknumber == 0 {
        push_text(&mut w, String::from_str("Track number (TRCK) is 0 or missing"));
    }
    assert(texts(w@) =~= w3 + item_if(info@.tracknumber == 0, "Track number (TRCK) is 0 or missing"@));
    w
}

fn header_issues_exec(info: &XmInfo, file_size: u64) -> (r: Vec<String>)
    ensures
        texts(r@) == header_issues_of(info@, file_size as nat),
{
    let mut v: Vec<String> = Vec::new();
    let ghost v0 = texts(v@);
    assert(v0 =~= Seq::<Seq<char>>::empty());
    if info.header_size < 10 {
        push_text(
            &mut v,
            message_with_number("ID3 header size too small: ", info.header_size as u64, ""),
        );
        proof {
            reveal_strlit("");
            assert("ID3 header size too small: "@ + decimal(info.header_size as nat) + ""@
                =~= "ID3 header size too small: "@ + decimal(info.header_size as nat));
        }
    }
    let ghost v1 = texts(v@);
    assert(v1 =~= v0 + item_if(
        info@.header_size < 10,
        "ID3 header size too small: "@ + decimal(info@.header_size as nat),
    ));
    if info.header_size as u64 > file_size {
        push_text(
            &mut v,
            message_with_numbers(
                "ID3 header size (",
                info.header_size as u64,
                ") exceeds file size (",
                file_size,
                ")",
            ),
        );
    }
    assert(texts(v@) =~= v1 + item_if(
        info@.header_size > file_size,
        "ID3 header size ("@ + decimal(info@.header_size as nat) + ") exceeds file size ("@
            + decimal(file_size as nat) + ")"@,
    ));
    v
}

impl XmDetector {
    /// Whether XM metadata is usable: an encrypted size, and a hex IV in `TSRC`
    /// (or in `TENC` when there is no `TSRC`).
    pub fn validate_xm_info(info: &XmInfo) -> (r: bool)
        ensures
            r == valid_xm_info(info@),
    {
        if info.size == 0 {
            return false;
        }
        if info.isrc.is_none() && info.encodedby.is_none() {
            return false;
        }
        match &info.isrc {
            Some(isrc) => hex_decode_str(isrc.as_str()).is_some(),
            None => match &info.encodedby {
                Some(enc) => hex_decode_str(enc.as_str()).is_some(),
                None => true,
            },
        }
    }

    /// Whether a file is in XM format, from its size, its first bytes and its tag (`None`
    /// when the tag could not be read): at least ten bytes, the `ID3` magic, and usable
    /// XM metadata.
    pub fn detect(file_size: u64, header: &[u8], info: Option<&XmInfo>) -> (r: bool)
        requires
            file_size >= 10 ==> header.len() >= 3,
        ensures
            r == (file_size >= 10 && has_id3_magic(header@) && (info matches Some(i)
                && valid_xm_info(i@))),
    {
        if file_size < 10 {
            return false;
        }
        if !(header[0] == 0x49 && header[1] == 0x44 && header[2] == 0x33) {
            return false;
        }
        match info {
            Some(i) => Self::validate_xm_info(i),
            None => false,
        }
    }

    /// Validates XM metadata against the size of its file.
    pub fn validate_file(info: XmInfo, file_size: u64) -> (r: ValidationResult)
        requires
            info.header_size + info.size <= usize::MAX,
        ensures
            r@ == validation_of(info@, file_size as nat),
            r.is_valid == (r.issues.len() == 0),
    {
        let size_issue = size_issue_exec(&info, file_size);
        let (iv_issue, iv_warning) = iv_findings(&info);
        let field_warnings = field_warnings_exec(&info);
        let header_issues = header_issues_exec(&info, file_size);
        let first = append_texts(size_issue, iv_issue);
        let issues = append_texts(first, header_issues);
        let warnings = append_texts(iv_warning, field_warnings);
        let is_valid = issues.len() == 0;
        ValidationResult { is_valid, issues, warnings, metadata: info }
    }

    /// The corruption report of a validation: one indicator per sign of corruption in each
    /// issue (a size beyond the file, a bad header size, an IV that is not hex).
    pub fn detect_corruption(validation: ValidationResult) -> (r: CorruptionReport)
        ensures
            r@.indicators == corruption_indicators(validation@.issues),
            r@.is_corrupted == (r@.indicators.len() > 0),
            r@.validation_result == validation@,
    {
        let mut indicators: Vec<String> = Vec::new();
        let mut i: usize = 0;
        assert(texts(indicators@) =~= corruption_indicators(validation@.issues.take(0)));
        while i < validation.issues.len()
            invariant
                i <= validation.issues.len(),
                texts(indicators@) == corruption_indicators(validation@.issues.take(i as int)),
            decreases validation.issues.len() - i,
        {
            let ghost pre = validation@.issues.take(i as int);
            assert(validation@.issues.take(i + 1).drop_last() =~= pre);
            assert(validation@.issues.take(i + 1).last() == validation.issues@[i as int]@);
            push_indicators(&mut indicators, &validation.issues[i]);
            i += 1;
        }
        assert(validation@.issues.take(i as int) =~= validation@.issues);
        let is_corrupted = indicators.len() > 0;
        CorruptionReport { is_corrupted, indicators, validation_result: validation }
    }
}

impl ValidationResult {
    /// Whether the file is valid XM.
    pub fn is_valid(&self) -> (r: bool)
        ensures
            r == self.is_valid,
    {
        self.is_valid
    }

    /// The critical issues that prevent decryption.
    pub fn issues(&self) -> (r: &[String])
        ensures
            r@ == self.issues@,
    {
        self.issues.as_slice()
    }

    /// The warnings (non-critical findings).
    pub fn warnings(&self) -> (r: &[String])
        ensures
            r@ == self.warnings@,
    {
        self.warnings.as_slice()
    }

    /// `None` without issues; otherwise a message listing the issues one per line.
    pub fn error_message(&self) -> (r: Option<String>)
        ensures
            match r {
                None => self@.issues.len() == 0,
                Some(m) => self@.issues.len() > 0 && m@ == "XM validation failed:\n"@ + join_lines(
                    self@.issues,
                ),
            },
    {
        if self.issues.len() == 0 {
            return None;
        }
        let mut text = chars_of("XM validation failed:\n");
        let ghost lead = text@;
        let mut i: usize = 0;
        assert(join_lines(self@.issues.take(0)) =~= Seq::<char>::empty());
        assert(text@ =~= lead + join_lines(self@.issues.take(0)));
        while i < self.issues.len()
            invariant
                i <= self.issues.len(),
                lead == "XM validation failed:\n"@,
                text@ == lead + join_lines(self@.issues.take(i as int)),
            decreases self.issues.len() - i,
        {
            let ghost pre = self@.issues.take(i as int);
            assert(self@.issues.take(i + 1).drop_last() =~= pre);
            assert(self@.issues.take(i + 1).last() == self.issues@[i as int]@);
            let line = chars_of(self.issues[i].as_str());
            if i > 0 {
                let mut nl: Vec<char> = Vec::new();
                nl.push('\n');
                let t1 = concat_of(&text, &nl);
                text = concat_of(&t1, &line);
                assert(text@ =~= lead + join_lines(self@.issues.take(i + 1)));
            } else {
                text = concat_of(&text, &line);
                assert(self@.issues.take(1) =~= seq![self@.issues[0]]);
                assert(text@ =~= lead + join_lines(self@.issues.take(i + 1)));
            }
            i += 1;
        }
        assert(self@.issues.take(i as int) =~= self@.issues);
        Some(string_of(&text))
    }
}

/// A file that validates without issues is never reported corrupted.
pub proof fn lemma_no_issues_not_corrupted(issues: Seq<Seq<char>>)
    requires
        issues.len() == 0,
    ensures
        corruption_indicators(issues).len() == 0,
{
}

/// Validation finds no issue exactly when the metadata passes the detector's check and
/// the tag and the encrypted chunk fit in the file.
pub proof fn lemma_validation_agrees_with_detection(info: XmInfoView, file_size: nat)
    ensures
        validation_issues(info, file_size).len() == 0 <==> (valid_xm_info(info) && 10
            <= info.header_size && info.header_size + info.size <= file_size),
{
}

/// The second character of every issue about the size or the tag header: `S` (`TSIZ`),
/// `n` (`Encrypted`) or `D` (`ID3`).
proof fn lemma_size_and_header_issue_marks(info: XmInfoView, file_size: nat)
    ensures
        forall|i: int| 0 <= i < (size_issue_of(info, file_size) + header_issues_of(info, file_size)).len()
            ==> {
                let m = #[trigger] (size_issue_of(info, file_size) + header_issues_of(info, file_size))[i];
                m.len() > 1 && (m[1] == 'S' || m[1] == 'n' || m[1] == 'D')
            },
{
    reveal_strlit("TSIZ field is 0 or missing");
    reveal_strlit("Encrypted data size (");
    reveal_strlit("ID3 header size too small: ");
    reveal_strlit("ID3 header size (");
}

/// The second character of every warning about missing fields: `i` (`Title`), `r`
/// (`Artist`, `Track`) or `l` (`Album`).
proof fn lemma_field_warning_marks(info: XmInfoView)
    ensures
        forall|i: int| 0 <= i < field_warnings_of(info).len() ==> {
            let m = #[trigger] field_warnings_of(info)[i];
            m.len() > 1 && (m[1] == 'i' || m[1] == 'r' || m[1] == 'l')
        },
{
    reveal_strlit("Title (TIT2) is missing");
    reveal_strlit("Artist (TPE1) is missing");
    reveal_strlit("Album (TALB) is missing");
    reveal_strlit("Track number (TRCK) is 0 or missing");
}

/// What validation finds about the IV, which is read from `TSRC`, or from `TENC` when
/// there is no `TSRC`: without either, the issue `No IV found (TSRC or TENC missing)`;
/// with text that is not hex, the issue `IV is not valid hex string`; with hex text,
/// neither of these issues, and the warning `IV length is <n> bytes (expected 16)`
/// exactly when the IV is not 16 bytes long.
pub proof fn lemma_validation_iv_findings(info: XmInfoView, file_size: nat)
    ensures
        iv_text(info) is None ==> validation_issues(info, file_size).contains(
            "No IV found (TSRC or TENC missing)"@,
        ),
        iv_text(info) matches Some(t) ==> (hex_decode(t) is None ==> validation_issues(
            info,
            file_size,
        ).contains("IV is not valid hex string"@)),
        iv_text(info) matches Some(t) ==> (hex_decode(t) matches Some(v) ==> {
            &&& !validation_issues(info, file_size).contains("No IV found (TSRC or TENC missing)"@)
            &&& !validation_issues(info, file_size).contains("IV is not valid hex string"@)
            &&& (validation_warnings(info).contains(
                "IV length is "@ + decimal(v.len()) + " bytes (expected 16)"@,
            ) <==> v.len() != 16)
        }),
{
    reveal_strlit("No IV found (TSRC or TENC missing)");
    reveal_strlit("IV is not valid hex string");
    reveal_strlit("IV length is ");
    let issues = validation_issues(info, file_size);
    let a = size_issue_of(info, file_size);
    let h = header_issues_of(info, file_size);
    let k = iv_issue_of(info);
    assert(issues =~= a + k + h);
    match iv_text(info) {
        None => {
            assert(issues[a.len() as int] == "No IV found (TSRC or TENC missing)"@);
        },
        Some(t) => match hex_decode(t) {
            None => {
                assert(issues[a.len() as int] == "IV is not valid hex string"@);
            },
            Some(v) => {
                assert(k =~= Seq::<Seq<char>>::empty());
                assert(issues =~= a + h);
                lemma_size_and_header_issue_marks(info, file_size);
                assert forall|i: int| 0 <= i < issues.len() implies issues[i]
                    != "No IV found (TSRC or TENC missing)"@ && issues[i]
                    != "IV is not valid hex string"@ by {
                    let m = issues[i];
                    assert(m == (a + h)[i]);
                    assert(m[1] != "No IV found (TSRC or TENC missing)"@[1]);
                    assert(m[1] != "IV is not valid hex string"@[1]);
                }
                let w = "IV length is "@ + decimal(v.len()) + " bytes (expected 16)"@;
                let ws = validation_warnings(info);
                let f = field_warnings_of(info);
                assert(!issues.contains("No IV found (TSRC or TENC missing)"@));
                assert(!issues.contains("IV is not valid hex string"@));
                if v.len() != 16 {
                    assert(ws[0] == w);
                    assert(ws.contains(w));
                } else {
                    assert(ws =~= f);
                    lemma_field_warning_marks(info);
                    assert forall|i: int| 0 <= i < ws.len() implies ws[i] != w by {
                        assert(ws[i] == f[i]);
                        assert(w[1] == 'V');
                    }
                    assert(!ws.contains(w));
                }
            },
        },
    }
}

} // verus!
