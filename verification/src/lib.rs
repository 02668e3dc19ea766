//! A parser for NarInfo documents: the small line-oriented text records a
//! binary cache serves to describe one content-addressed archive.  The
//! library turns one in-memory document into a validated, typed record, or
//! into a structured error naming the line, field and cause of the failure.

use vstd::prelude::*;

pub mod laws;
pub mod num;
pub mod text;

verus! {

use crate::num::{NumErrKind, spec_dec_u64};
use crate::text::{find_first, spec_trim, space_tokens, split_at_char};

/// An identifier string is non-empty and contains no space, the separator
/// of the `References` list.
pub open spec fn id_ok(s: Seq<char>) -> bool {
    s.len() > 0 && (forall|i: int| 0 <= i < s.len() ==> s[i] != ' ')
}

/// The hash-name part of a store path,
/// e.g. `xmxgxig6zxrixicc7905ssgb4yc3lysa-bash-interactive-4.4-p23`.
#[derive(PartialEq, Eq, Debug, Clone)]
pub struct NarInfoId(String);

/// The hash-name part of a derivation's store path,
/// e.g. `a6xizp18g0sch9z7493p3irq632kzlym-bash-interactive-4.4-p23.drv`.
#[derive(PartialEq, Eq, Debug, Clone)]
pub struct DerivationId(String);

impl View for NarInfoId {
    type V = Seq<char>;

    closed spec fn view(&self) -> Seq<char> {
        self.0@
    }
}

impl DeepView for NarInfoId {
    type V = Seq<char>;

    open spec fn deep_view(&self) -> Seq<char> {
        self.view()
    }
}

impl View for DerivationId {
    type V = Seq<char>;

    closed spec fn view(&self) -> Seq<char> {
        self.0@
    }
}

impl DeepView for DerivationId {
    type V = Seq<char>;

    open spec fn deep_view(&self) -> Seq<char> {
        self.view()
    }
}

/// The shared validation of both identifier kinds.
fn id_valid(s: &str) -> (r: bool)
    ensures
        r == id_ok(s@),
{
    let n = s.unicode_len();
    if n == 0 {
        return false;
    }
    match text::find_char_at(s, ' ', 0) {
        Some(_) => {
            proof {
                text::lemma_find_at(s@, ' ', 0);
            }
            false
        },
        None => {
            proof {
                text::lemma_find_at(s@, ' ', 0);
            }
            true
        },
    }
}

impl NarInfoId {
    /// Validates and wraps an identifier string.
    pub fn new(s: String) -> (r: Option<NarInfoId>)
        ensures
            match r {
                Some(id) => id_ok(s@) && id@ == s@,
                None => !id_ok(s@),
            },
    {
        if id_valid(s.as_str()) {
            Some(NarInfoId(s))
        } else {
            None
        }
    }

    /// The invariant of the identifier.
    pub open spec fn wf(&self) -> bool {
        id_ok(self@)
    }

    /// The underlying identifier string.
    pub fn as_str(&self) -> (r: &str)
        ensures
            r@ == self@,
    {
        self.0.as_str()
    }
}

impl DerivationId {
    /// Validates and wraps an identifier string.
    pub fn new(s: String) -> (r: Option<DerivationId>)
        ensures
            match r {
                Some(id) => id_ok(s@) && id@ == s@,
                None => !id_ok(s@),
            },
    {
        if id_valid(s.as_str()) {
            Some(DerivationId(s))
        } else {
            None
        }
    }

    /// The invariant of the identifier.
    pub open spec fn wf(&self) -> bool {
        id_ok(self@)
    }

    /// The underlying identifier string.
    pub fn as_str(&self) -> (r: &str)
        ensures
            r@ == self@,
    {
        self.0.as_str()
    }
}

/// A parsed NarInfo document: the metadata record a binary cache serves
/// beside each content-addressed archive.
#[derive(PartialEq, Eq, Debug, Clone)]
pub struct NarInfo {
    /// The location on disk of the store object this record points to,
    /// kept as its textual form and not checked against any filesystem.
    pub storepath: String,
    /// A reference to the compressed archive, relative to the location of
    /// this record itself.
    pub url: String,
    /// The compression algorithm used on the archive.
    pub compression: String,
    /// The hash of the compressed archive.
    pub file_hash: String,
    /// The size in bytes of the compressed archive.
    pub file_size: u64,
    /// The hash of the decompressed archive.
    pub nar_hash: String,
    /// The size in bytes of the decompressed archive.
    pub nar_size: u64,
    /// The store paths this archive depends on, in document order,
    /// duplicates kept.
    pub references: Vec<NarInfoId>,
    /// The derivation that built this store path.
    pub deriver: DerivationId,
    /// The signature over the record's other fields, kept verbatim and not
    /// verified here.
    pub signature: String,
}

/// The mathematical content of a record: every field as a plain value.
pub ghost struct SpecRecord {
    pub storepath: Seq<char>,
    pub url: Seq<char>,
    pub compression: Seq<char>,
    pub file_hash: Seq<char>,
    pub file_size: u64,
    pub nar_hash: Seq<char>,
    pub nar_size: u64,
    pub references: Seq<Seq<char>>,
    pub deriver: Seq<char>,
    pub signature: Seq<char>,
}

impl View for NarInfo {
    type V = SpecRecord;

    open spec fn view(&self) -> SpecRecord {
        SpecRecord {
            storepath: self.storepath@,
            url: self.url@,
            compression: self.compression@,
            file_hash: self.file_hash@,
            file_size: self.file_size,
            nar_hash: self.nar_hash@,
            nar_size: self.nar_size,
            references: self.references.deep_view(),
            deriver: self.deriver@,
            signature: self.signature@,
        }
    }
}

/// The identifier invariants of an assembled record.
pub open spec fn record_ids_ok(r: SpecRecord) -> bool {
    id_ok(r.deriver) && (forall|i: int| 0 <= i < r.references.len() ==> id_ok(r.references[i]))
}

impl NarInfo {
    /// The invariant of the record: its identifiers are well-formed.
    pub open spec fn wf(&self) -> bool {
        record_ids_ok(self@)
    }
}

/// One decoded `Key: Value` line.
#[derive(PartialEq, Eq, Debug, Clone)]
pub enum NarInfoDatum {
    Compression(String),
    Deriver(DerivationId),
    FileHash(String),
    FileSize(u64),
    NarHash(String),
    NarSize(u64),
    References(Vec<NarInfoId>),
    Sig(String),
    StorePath(String),
    Url(String),
}

/// The mathematical content of a decoded line.
pub ghost enum SpecDatum {
    Compression(Seq<char>),
    Deriver(Seq<char>),
    FileHash(Seq<char>),
    FileSize(u64),
    NarHash(Seq<char>),
    NarSize(u64),
    References(Seq<Seq<char>>),
    Sig(Seq<char>),
    StorePath(Seq<char>),
    Url(Seq<char>),
}

impl View for NarInfoDatum {
    type V = SpecDatum;

    open spec fn view(&self) -> SpecDatum {
        match self {
            NarInfoDatum::Compression(s) => SpecDatum::Compression(s@),
            NarInfoDatum::Deriver(d) => SpecDatum::Deriver(d@),
            NarInfoDatum::FileHash(s) => SpecDatum::FileHash(s@),
            NarInfoDatum::FileSize(n) => SpecDatum::FileSize(*n),
            NarInfoDatum::NarHash(s) => SpecDatum::NarHash(s@),
            NarInfoDatum::NarSize(n) => SpecDatum::NarSize(*n),
            NarInfoDatum::References(rs) => SpecDatum::References(rs.deep_view()),
            NarInfoDatum::Sig(s) => SpecDatum::Sig(s@),
            NarInfoDatum::StorePath(s) => SpecDatum::StorePath(s@),
            NarInfoDatum::Url(s) => SpecDatum::Url(s@),
        }
    }
}

/// Why a single line was rejected.
#[derive(PartialEq, Eq, Debug, Clone)]
pub enum ParseErr {
    /// The line has no `:` separator at all; carries the whole line.
    LineCorruptNoColon(String),
    /// The key before the first `:` is outside the vocabulary; carries it.
    LineUnknownKey(String),
    /// A numeric field did not decode: the key, the offending text, why.
    InvalidU64(String, String, NumErrKind),
    /// A whitespace-free field holds a space: the key and the char offset
    /// of the first space in the trimmed value.
    UnexpectedSpace(String, usize),
    /// A field that must be non-empty was empty: the key.
    ValueEmpty(String),
}

/// The mathematical content of a line error.
pub ghost enum SpecLineErr {
    NoColon(Seq<char>),
    UnknownKey(Seq<char>),
    InvalidU64(Seq<char>, Seq<char>, NumErrKind),
    UnexpectedSpace(Seq<char>, int),
    ValueEmpty(Seq<char>),
}

impl View for ParseErr {
    type V = SpecLineErr;

    open spec fn view(&self) -> SpecLineErr {
        match self {
            ParseErr::LineCorruptNoColon(s) => SpecLineErr::NoColon(s@),
            ParseErr::LineUnknownKey(s) => SpecLineErr::UnknownKey(s@),
            ParseErr::InvalidU64(k, raw, why) => SpecLineErr::InvalidU64(k@, raw@, *why),
            ParseErr::UnexpectedSpace(k, off) => SpecLineErr::UnexpectedSpace(k@, *off as int),
            ParseErr::ValueEmpty(k) => SpecLineErr::ValueEmpty(k@),
        }
    }
}

/// Why a whole document was rejected.
#[derive(PartialEq, Eq, Debug, Clone)]
pub enum NarInfoErr {
    /// A line failed to parse: its 1-based number and the line error.
    Line(usize, ParseErr),
    /// A singleton key appeared twice: the key and both 1-based lines.
    DuplicateField(String, usize, usize),
    /// Required fields absent after the full scan, in record order.
    MissingField(Vec<String>),
    /// The document has no lines at all.
    DocumentEmpty,
}

/// The mathematical content of a document error.
pub ghost enum SpecDocErr {
    Line(int, SpecLineErr),
    DuplicateField(Seq<char>, int, int),
    MissingField(Seq<Seq<char>>),
    DocumentEmpty,
}

impl View for NarInfoErr {
    type V = SpecDocErr;

    open spec fn view(&self) -> SpecDocErr {
        match self {
            NarInfoErr::Line(n, e) => SpecDocErr::Line(*n as int, e@),
            NarInfoErr::DuplicateField(k, a, b) => SpecDocErr::DuplicateField(
                k@,
                *a as int,
                *b as int,
            ),
            NarInfoErr::MissingField(ks) => SpecDocErr::MissingField(ks.deep_view()),
            NarInfoErr::DocumentEmpty => SpecDocErr::DocumentEmpty,
        }
    }
}

/// Validation of a whitespace-free field value: the value itself, or the
/// char offset of its first space.
pub open spec fn spec_space_free(key: Seq<char>, v: Seq<char>) -> Result<Seq<char>, SpecLineErr> {
    let f = find_first(v, ' ');
    if f < 0 {
        Ok(v)
    } else {
        Err(SpecLineErr::UnexpectedSpace(key, f))
    }
}

/// Decoding of a trimmed value under its key: the fixed vocabulary of ten
/// keys, compared case-sensitively, each with its extra validation.
pub open spec fn spec_dispatch(key: Seq<char>, v: Seq<char>) -> Result<SpecDatum, SpecLineErr> {
    if key == "StorePath"@ {
        if v.len() == 0 {
            Err(SpecLineErr::ValueEmpty(key))
        } else {
            Ok(SpecDatum::StorePath(v))
        }
    } else if key == "URL"@ {
        if v.len() == 0 {
            Err(SpecLineErr::ValueEmpty(key))
        } else {
            Ok(SpecDatum::Url(v))
        }
    } else if key == "Compression"@ {
        match spec_space_free(key, v) {
            Ok(t) => Ok(SpecDatum::Compression(t)),
            Err(e) => Err(e),
        }
    } else if key == "FileHash"@ {
        match spec_space_free(key, v) {
            Ok(t) => Ok(SpecDatum::FileHash(t)),
            Err(e) => Err(e),
        }
    } else if key == "FileSize"@ {
        match spec_dec_u64(v) {
            Ok(n) => Ok(SpecDatum::FileSize(n)),
            Err(why) => Err(SpecLineErr::InvalidU64(key, v, why)),
        }
    } else if key == "NarHash"@ {
        match spec_space_free(key, v) {
            Ok(t) => Ok(SpecDatum::NarHash(t)),
            Err(e) => Err(e),
        }
    } else if key == "NarSize"@ {
        match spec_dec_u64(v) {
            Ok(n) => Ok(SpecDatum::NarSize(n)),
            Err(why) => Err(SpecLineErr::InvalidU64(key, v, why)),
        }
    } else if key == "References"@ {
        Ok(SpecDatum::References(space_tokens(v, 0)))
    } else if key == "Deriver"@ {
        match spec_space_free(key, v) {
            Ok(t) => if t.len() == 0 {
                Err(SpecLineErr::ValueEmpty(key))
            } else {
                Ok(SpecDatum::Deriver(t))
            },
            Err(e) => Err(e),
        }
    } else if key == "Sig"@ {
        Ok(SpecDatum::Sig(v))
    } else {
        Err(SpecLineErr::UnknownKey(key))
    }
}

/// What parsing one line yields: split at the first colon, the key exact,
/// the value trimmed, then decoded under the key.
pub open spec fn spec_parse_line(line: Seq<char>) -> Result<SpecDatum, SpecLineErr> {
    let f = find_first(line, ':');
    if f < 0 {
        Err(SpecLineErr::NoColon(line))
    } else {
        spec_dispatch(line.subrange(0, f), spec_trim(line.subrange(f + 1, line.len() as int)))
    }
}

/// Splits a space-separated `References` value into validated identifiers:
/// the maximal non-empty space-free runs, in order.
fn parse_references(v: &str) -> (r: Vec<NarInfoId>)
    ensures
        r.deep_view() == space_tokens(v@, 0),
        forall|i: int| 0 <= i < r.len() ==> #[trigger] r[i].wf(),
{
    let n = v.unicode_len();
    let mut refs: Vec<NarInfoId> = Vec::new();
    let mut p: usize = 0;
    loop
        invariant_except_break
            space_tokens(v@, 0) == refs.deep_view() + space_tokens(v@, p as int),
        invariant
            p <= n,
            n == v@.len(),
            forall|i: int| 0 <= i < refs.len() ==> #[trigger] refs[i].wf(),
        ensures
            refs.deep_view() == space_tokens(v@, 0),
            forall|i: int| 0 <= i < refs.len() ==> #[trigger] refs[i].wf(),
        decreases n - p,
    {
        if p >= n {
            proof {
                assert(refs.deep_view() + space_tokens(v@, p as int) =~= refs.deep_view());
            }
            break;
        }
        let ghost prev = refs.deep_view();
        match text::find_char_at(v, ' ', p) {
            Some(f) => {
                if f == p {
                    p += 1;
                } else {
                    let tok = v.substring_char(p, f);
                    proof {
                        text::lemma_find_at(v@, ' ', p as int);
                        assert(forall|i: int| 0 <= i < tok@.len() ==> tok@[i] != ' ');
                    }
                    refs.push(NarInfoId(tok.to_owned()));
                    proof {
                        assert(refs.deep_view() =~= prev.push(tok@));
                        assert(prev + space_tokens(v@, p as int) =~= refs.deep_view()
                            + space_tokens(v@, f + 1));
                    }
                    p = f + 1;
                }
            },
            None => {
                let tok = v.substring_char(p, n);
                proof {
                    text::lemma_find_at(v@, ' ', p as int);
                    assert(forall|i: int| 0 <= i < tok@.len() ==> tok@[i] != ' ');
                }
                refs.push(NarInfoId(tok.to_owned()));
                proof {
                    assert(refs.deep_view() =~= prev.push(tok@));
                    assert(prev + space_tokens(v@, p as int) =~= refs.deep_view());
                }
                break;
            },
        }
    }
    refs
}

impl NarInfo {
    /// Accepts a whitespace-free field value, or reports the char offset of
    /// its first space under the given key.
    pub fn parse_str_no_spaces<'a>(key: &str, remainder: &'a str) -> (r: Result<
        &'a str,
        ParseErr,
    >)
        ensures
            match r {
                Ok(t) => spec_space_free(key@, remainder@) == Ok::<Seq<char>, SpecLineErr>(t@)
                    && t@ == remainder@,
                Err(e) => spec_space_free(key@, remainder@) == Err::<Seq<char>, SpecLineErr>(e@),
            },
    {
        match text::find_char_at(remainder, ' ', 0) {
            Some(position) => Err(ParseErr::UnexpectedSpace(key.to_owned(), position)),
            None => Ok(remainder),
        }
    }

    /// Decodes a base-10 unsigned 64-bit value, or reports the offending
    /// text and the cause under the given key.
    pub fn parse_u64(key: &str, remainder: &str) -> (r: Result<u64, ParseErr>)
        ensures
            match r {
                Ok(n) => spec_dec_u64(remainder@) == Ok::<u64, NumErrKind>(n),
                Err(e) => ({
                    match spec_dec_u64(remainder@) {
                        Ok(_) => false,
                        Err(why) => e@ == SpecLineErr::InvalidU64(key@, remainder@, why),
                    }
                }),
            },
    {
        match crate::num::dec_u64(remainder) {
            Ok(n) => Ok(n),
            Err(why) => Err(ParseErr::InvalidU64(key.to_owned(), remainder.to_owned(), why)),
        }
    }

    /// Decodes one `Key: Value` line into a typed datum, or rejects it.
    pub fn parse_line(line: &str) -> (r: Result<NarInfoDatum, ParseErr>)
        ensures
            match r {
                Ok(d) => spec_parse_line(line@) == Ok::<SpecDatum, SpecLineErr>(d@),
                Err(e) => spec_parse_line(line@) == Err::<SpecDatum, SpecLineErr>(e@),
            },
            r matches Ok(NarInfoDatum::Deriver(d)) ==> d.wf(),
            r matches Ok(NarInfoDatum::References(rs)) ==> forall|i: int|
                0 <= i < rs.len() ==> #[trigger] rs[i].wf(),
    {
        let colon = match text::find_char_at(line, ':', 0) {
            None => {
                return Err(ParseErr::LineCorruptNoColon(line.to_owned()));
            },
            Some(f) => f,
        };
        let n = line.unicode_len();
        let key = line.substring_char(0, colon);
        let raw = line.substring_char(colon + 1, n);
        let v = text::trim_str(raw);
        if text::str_eq(key, "StorePath") {
            if v.unicode_len() == 0 {
                Err(ParseErr::ValueEmpty(key.to_owned()))
            } else {
                Ok(NarInfoDatum::StorePath(v.to_owned()))
            }
        } else if text::str_eq(key, "URL") {
            if v.unicode_len() == 0 {
                Err(ParseErr::ValueEmpty(key.to_owned()))
            } else {
                Ok(NarInfoDatum::Url(v.to_owned()))
            }
        } else if text::str_eq(key, "Compression") {
            match Self::parse_str_no_spaces(key, v) {
                Ok(t) => Ok(NarInfoDatum::Compression(t.to_owned())),
                Err(e) => Err(e),
            }
        } else if text::str_eq(key, "FileHash") {
            match Self::parse_str_no_spaces(key, v) {
                Ok(t) => Ok(NarInfoDatum::FileHash(t.to_owned())),
                Err(e) => Err(e),
            }
        } else if text::str_eq(key, "FileSize") {
            match Self::parse_u64(key, v) {
                Ok(sz) => Ok(NarInfoDatum::FileSize(sz)),
                Err(e) => Err(e),
            }
        } else if text::str_eq(key, "NarHash") {
            match Self::parse_str_no_spaces(key, v) {
                Ok(t) => Ok(NarInfoDatum::NarHash(t.to_owned())),
                Err(e) => Err(e),
            }
        } else if text::str_eq(key, "NarSize") {
            match Self::parse_u64(key, v) {
                Ok(sz) => Ok(NarInfoDatum::NarSize(sz)),
                Err(e) => Err(e),
            }
        } else if text::str_eq(key, "References") {
            Ok(NarInfoDatum::References(parse_references(v)))
        } else if text::str_eq(key, "Deriver") {
            match Self::parse_str_no_spaces(key, v) {
                Ok(t) => {
                    if t.unicode_len() == 0 {
                        Err(ParseErr::ValueEmpty(key.to_owned()))
                    } else {
                        proof {
                            text::lemma_find_at(t@, ' ', 0);
                        }
                        Ok(NarInfoDatum::Deriver(DerivationId(t.to_owned())))
                    }
                },
                Err(e) => Err(e),
            }
        } else if text::str_eq(key, "Sig") {
            Ok(NarInfoDatum::Sig(v.to_owned()))
        } else {
            Err(ParseErr::LineUnknownKey(key.to_owned()))
        }
    }
}

/// A record under construction: for each singleton field, the 1-based line
/// that set it and its value, or nothing yet.
pub ghost struct SpecPartial {
    pub storepath: Option<(int, Seq<char>)>,
    pub url: Option<(int, Seq<char>)>,
    pub compression: Option<(int, Seq<char>)>,
    pub file_hash: Option<(int, Seq<char>)>,
    pub file_size: Option<(int, u64)>,
    pub nar_hash: Option<(int, Seq<char>)>,
    pub nar_size: Option<(int, u64)>,
    pub references: Option<(int, Seq<Seq<char>>)>,
    pub deriver: Option<(int, Seq<char>)>,
    pub signature: Option<(int, Seq<char>)>,
}

/// The state before any line was seen.
pub open spec fn empty_partial() -> SpecPartial {
    SpecPartial {
        storepath: None,
        url: None,
        compression: None,
        file_hash: None,
        file_size: None,
        nar_hash: None,
        nar_size: None,
        references: None,
        deriver: None,
        signature: None,
    }
}

/// Commits one decoded datum at 1-based line `ln`, or reports the duplicate
/// before the earlier value could be overwritten.
pub open spec fn spec_apply(st: SpecPartial, ln: int, d: SpecDatum) -> Result<
    SpecPartial,
    SpecDocErr,
> {
    match d {
        SpecDatum::StorePath(v) => match st.storepath {
            Some(p) => Err(SpecDocErr::DuplicateField("StorePath"@, p.0, ln)),
            None => Ok(SpecPartial { storepath: Some((ln, v)), ..st }),
        },
        SpecDatum::Url(v) => match st.url {
            Some(p) => Err(SpecDocErr::DuplicateField("URL"@, p.0, ln)),
            None => Ok(SpecPartial { url: Some((ln, v)), ..st }),
        },
        SpecDatum::Compression(v) => match st.compression {
            Some(p) => Err(SpecDocErr::DuplicateField("Compression"@, p.0, ln)),
            None => Ok(SpecPartial { compression: Some((ln, v)), ..st }),
        },
        SpecDatum::FileHash(v) => match st.file_hash {
            Some(p) => Err(SpecDocErr::DuplicateField("FileHash"@, p.0, ln)),
            None => Ok(SpecPartial { file_hash: Some((ln, v)), ..st }),
        },
        SpecDatum::FileSize(v) => match st.file_size {
            Some(p) => Err(SpecDocErr::DuplicateField("FileSize"@, p.0, ln)),
            None => Ok(SpecPartial { file_size: Some((ln, v)), ..st }),
        },
        SpecDatum::NarHash(v) => match st.nar_hash {
            Some(p) => Err(SpecDocErr::DuplicateField("NarHash"@, p.0, ln)),
            None => Ok(SpecPartial { nar_hash: Some((ln, v)), ..st }),
        },
        SpecDatum::NarSize(v) => match st.nar_size {
            Some(p) => Err(SpecDocErr::DuplicateField("NarSize"@, p.0, ln)),
            None => Ok(SpecPartial { nar_size: Some((ln, v)), ..st }),
        },
        SpecDatum::References(v) => match st.references {
            Some(p) => Err(SpecDocErr::DuplicateField("References"@, p.0, ln)),
            None => Ok(SpecPartial { references: Some((ln, v)), ..st }),
        },
        SpecDatum::Deriver(v) => match st.deriver {
            Some(p) => Err(SpecDocErr::DuplicateField("Deriver"@, p.0, ln)),
            None => Ok(SpecPartial { deriver: Some((ln, v)), ..st }),
        },
        SpecDatum::Sig(v) => match st.signature {
            Some(p) => Err(SpecDocErr::DuplicateField("Sig"@, p.0, ln)),
            None => Ok(SpecPartial { signature: Some((ln, v)), ..st }),
        },
    }
}

/// The keys of the required fields absent from `st`, in record order.
/// `References` is not among them: an absent list defaults to empty.
pub open spec fn spec_missing(st: SpecPartial) -> Seq<Seq<char>> {
    (if st.storepath is None {
        seq!["StorePath"@]
    } else {
        Seq::empty()
    }) + (if st.url is None {
        seq!["URL"@]
    } else {
        Seq::empty()
    }) + (if st.compression is None {
        seq!["Compression"@]
    } else {
        Seq::empty()
    }) + (if st.file_hash is None {
        seq!["FileHash"@]
    } else {
        Seq::empty()
    }) + (if st.file_size is None {
        seq!["FileSize"@]
    } else {
        Seq::empty()
    }) + (if st.nar_hash is None {
        seq!["NarHash"@]
    } else {
        Seq::empty()
    }) + (if st.nar_size is None {
        seq!["NarSize"@]
    } else {
        Seq::empty()
    }) + (if st.deriver is None {
        seq!["Deriver"@]
    } else {
        Seq::empty()
    }) + (if st.signature is None {
        seq!["Sig"@]
    } else {
        Seq::empty()
    })
}

/// Closes a fully scanned document: every required field exactly once, or
/// every missing key at once.
pub open spec fn spec_finish(st: SpecPartial) -> Result<SpecRecord, SpecDocErr> {
    if spec_missing(st).len() > 0 {
        Err(SpecDocErr::MissingField(spec_missing(st)))
    } else {
        Ok(
            SpecRecord {
                storepath: match st.storepath {
                    Some(p) => p.1,
                    None => Seq::empty(),
                },
                url: match st.url {
                    Some(p) => p.1,
                    None => Seq::empty(),
                },
                compression: match st.compression {
                    Some(p) => p.1,
                    None => Seq::empty(),
                },
                file_hash: match st.file_hash {
                    Some(p) => p.1,
                    None => Seq::empty(),
                },
                file_size: match st.file_size {
                    Some(p) => p.1,
                    None => 0,
                },
                nar_hash: match st.nar_hash {
                    Some(p) => p.1,
                    None => Seq::empty(),
                },
                nar_size: match st.nar_size {
                    Some(p) => p.1,
                    None => 0,
                },
                references: match st.references {
                    Some(p) => p.1,
                    None => Seq::empty(),
                },
                deriver: match st.deriver {
                    Some(p) => p.1,
                    None => Seq::empty(),
                },
                signature: match st.signature {
                    Some(p) => p.1,
                    None => Seq::empty(),
                },
            },
        )
    }
}

/// Assembly from line `i` onward, starting in state `st`: fail fast on the
/// first bad line, on a duplicate before overwriting, and close at the end.
pub open spec fn spec_assemble_at(lines: Seq<Seq<char>>, i: int, st: SpecPartial) -> Result<
    SpecRecord,
    SpecDocErr,
>
    decreases lines.len() - i,
{
    if i < 0 || i >= lines.len() {
        spec_finish(st)
    } else {
        match spec_parse_line(lines[i]) {
            Err(e) => Err(SpecDocErr::Line(i + 1, e)),
            Ok(d) => match spec_apply(st, i + 1, d) {
                Err(e) => Err(e),
                Ok(st2) => spec_assemble_at(lines, i + 1, st2),
            },
        }
    }
}

/// What assembling the lines of a document yields.
pub open spec fn spec_assemble(lines: Seq<Seq<char>>) -> Result<SpecRecord, SpecDocErr> {
    if lines.len() == 0 {
        Err(SpecDocErr::DocumentEmpty)
    } else {
        spec_assemble_at(lines, 0, empty_partial())
    }
}

/// The document's lines: split at `\n`, one trailing empty line tolerated.
pub open spec fn spec_lines(doc: Seq<char>) -> Seq<Seq<char>> {
    let ls = split_at_char(doc, '\n', 0);
    if ls.len() > 0 && ls.last().len() == 0 {
        ls.drop_last()
    } else {
        ls
    }
}

/// What parsing a whole document yields.
pub open spec fn spec_parse_narinfo(doc: Seq<char>) -> Result<SpecRecord, SpecDocErr> {
    spec_assemble(spec_lines(doc))
}

struct Partial {
    storepath: Option<(usize, String)>,
    url: Option<(usize, String)>,
    compression: Option<(usize, String)>,
    file_hash: Option<(usize, String)>,
    file_size: Option<(usize, u64)>,
    nar_hash: Option<(usize, String)>,
    nar_size: Option<(usize, u64)>,
    references: Option<(usize, Vec<NarInfoId>)>,
    deriver: Option<(usize, DerivationId)>,
    signature: Option<(usize, String)>,
}

impl View for Partial {
    type V = SpecPartial;

    closed spec fn view(&self) -> SpecPartial {
        SpecPartial {
            storepath: match self.storepath {
                Some(p) => Some((p.0 as int, p.1@)),
                None => None,
            },
            url: match self.url {
                Some(p) => Some((p.0 as int, p.1@)),
                None => None,
            },
            compression: match self.compression {
                Some(p) => Some((p.0 as int, p.1@)),
                None => None,
            },
            file_hash: match self.file_hash {
                Some(p) => Some((p.0 as int, p.1@)),
                None => None,
            },
            file_size: match self.file_size {
                Some(p) => Some((p.0 as int, p.1)),
                None => None,
            },
            nar_hash: match self.nar_hash {
                Some(p) => Some((p.0 as int, p.1@)),
                None => None,
            },
            nar_size: match self.nar_size {
                Some(p) => Some((p.0 as int, p.1)),
                None => None,
            },
            references: match self.references {
                Some(p) => Some((p.0 as int, p.1.deep_view())),
                None => None,
            },
            deriver: match self.deriver {
                Some(p) => Some((p.0 as int, p.1@)),
                None => None,
            },
            signature: match self.signature {
                Some(p) => Some((p.0 as int, p.1@)),
                None => None,
            },
        }
    }
}

/// The identifier invariants of a record under construction.
spec fn partial_ids_ok(st: Partial) -> bool {
    (match st.deriver {
        Some(p) => p.1.wf(),
        None => true,
    }) && (match st.references {
        Some(p) => forall|i: int| 0 <= i < p.1.len() ==> #[trigger] p.1[i].wf(),
        None => true,
    })
}

impl Partial {
    fn new() -> (r: Partial)
        ensures
            r@ == empty_partial(),
            partial_ids_ok(r),
    {
        Partial {
            storepath: None,
            url: None,
            compression: None,
            file_hash: None,
            file_size: None,
            nar_hash: None,
            nar_size: None,
            references: None,
            deriver: None,
            signature: None,
        }
    }
}

/// Commits one decoded datum, or reports the duplicate field.
fn apply_datum(st: &mut Partial, ln: usize, d: NarInfoDatum) -> (r: Result<(), NarInfoErr>)
    requires
        partial_ids_ok(*old(st)),
        d matches NarInfoDatum::Deriver(id) ==> id.wf(),
        d matches NarInfoDatum::References(rs) ==> forall|i: int|
            0 <= i < rs.len() ==> #[trigger] rs[i].wf(),
    ensures
        partial_ids_ok(*final(st)),
        match r {
            Ok(_) => spec_apply(old(st)@, ln as int, d@) == Ok::<SpecPartial, SpecDocErr>(
                final(st)@,
            ),
            Err(e) => spec_apply(old(st)@, ln as int, d@) == Err::<SpecPartial, SpecDocErr>(e@)
                && final(st)@ == old(st)@,
        },
{
    match d {
        NarInfoDatum::StorePath(v) => match &st.storepath {
            Some(p) => Err(NarInfoErr::DuplicateField("StorePath".to_owned(), p.0, ln)),
            None => {
                st.storepath = Some((ln, v));
                Ok(())
            },
        },
        NarInfoDatum::Url(v) => match &st.url {
            Some(p) => Err(NarInfoErr::DuplicateField("URL".to_owned(), p.0, ln)),
            None => {
                st.url = Some((ln, v));
                Ok(())
            },
        },
        NarInfoDatum::Compression(v) => match &st.compression {
            Some(p) => Err(NarInfoErr::DuplicateField("Compression".to_owned(), p.0, ln)),
            None => {
                st.compression = Some((ln, v));
                Ok(())
            },
        },
        NarInfoDatum::FileHash(v) => match &st.file_hash {
            Some(p) => Err(NarInfoErr::DuplicateField("FileHash".to_owned(), p.0, ln)),
            None => {
                st.file_hash = Some((ln, v));
                Ok(())
            },
        },
        NarInfoDatum::FileSize(v) => match &st.file_size {
            Some(p) => Err(NarInfoErr::DuplicateField("FileSize".to_owned(), p.0, ln)),
            None => {
                st.file_size = Some((ln, v));
                Ok(())
            },
        },
        NarInfoDatum::NarHash(v) => match &st.nar_hash {
            Some(p) => Err(NarInfoErr::DuplicateField("NarHash".to_owned(), p.0, ln)),
            None => {
                st.nar_hash = Some((ln, v));
                Ok(())
            },
        },
        NarInfoDatum::NarSize(v) => match &st.nar_size {
            Some(p) => Err(NarInfoErr::DuplicateField("NarSize".to_owned(), p.0, ln)),
            None => {
                st.nar_size = Some((ln, v));
                Ok(())
            },
        },
        NarInfoDatum::References(v) => match &st.references {
            Some(p) => Err(NarInfoErr::DuplicateField("References".to_owned(), p.0, ln)),
            None => {
                st.references = Some((ln, v));
                Ok(())
            },
        },
        NarInfoDatum::Deriver(v) => match &st.deriver {
            Some(p) => Err(NarInfoErr::DuplicateField("Deriver".to_owned(), p.0, ln)),
            None => {
                st.deriver = Some((ln, v));
                Ok(())
            },
        },
        NarInfoDatum::Sig(v) => match &st.signature {
            Some(p) => Err(NarInfoErr::DuplicateField("Sig".to_owned(), p.0, ln)),
            None => {
                st.signature = Some((ln, v));
                Ok(())
            },
        },
    }
}

/// Appends `name` to `acc` when `absent` holds.
fn push_if_missing(acc: &mut Vec<String>, absent: bool, name: &str)
    ensures
        final(acc).deep_view() == old(acc).deep_view() + (if absent {
            seq![name@]
        } else {
            Seq::<Seq<char>>::empty()
        }),
{
    let ghost prev = acc.deep_view();
    if absent {
        acc.push(name.to_owned());
        proof {
            assert(acc.deep_view() =~= prev + seq![name@]);
        }
    } else {
        proof {
            assert(acc.deep_view() =~= prev + Seq::<Seq<char>>::empty());
        }
    }
}

/// Collects the keys of the required fields absent from `st`, in order.
#[verifier::rlimit(50)]
fn missing_keys(st: &Partial) -> (r: Vec<String>)
    ensures
        r.deep_view() == spec_missing(st@),
{
    let mut missing: Vec<String> = Vec::new();
    proof {
        assert(missing.deep_view() =~= Seq::<Seq<char>>::empty());
    }
    push_if_missing(&mut missing, st.storepath.is_none(), "StorePath");
    proof {
        assert(Seq::<Seq<char>>::empty() + (if st@.storepath is None {
            seq!["StorePath"@]
        } else {
            Seq::<Seq<char>>::empty()
        }) =~= (if st@.storepath is None {
            seq!["StorePath"@]
        } else {
            Seq::<Seq<char>>::empty()
        }));
    }
    push_if_missing(&mut missing, st.url.is_none(), "URL");
    push_if_missing(&mut missing, st.compression.is_none(), "Compression");
    push_if_missing(&mut missing, st.file_hash.is_none(), "FileHash");
    push_if_missing(&mut missing, st.file_size.is_none(), "FileSize");
    push_if_missing(&mut missing, st.nar_hash.is_none(), "NarHash");
    push_if_missing(&mut missing, st.nar_size.is_none(), "NarSize");
    push_if_missing(&mut missing, st.deriver.is_none(), "Deriver");
    push_if_missing(&mut missing, st.signature.is_none(), "Sig");
    missing
}

/// Closes the scan: the record, or every missing required key at once.
fn finish_record(st: Partial) -> (r: Result<NarInfo, NarInfoErr>)
    requires
        partial_ids_ok(st),
    ensures
        match r {
            Ok(info) => spec_finish(st@) == Ok::<SpecRecord, SpecDocErr>(info@) && info.wf(),
            Err(e) => spec_finish(st@) == Err::<SpecRecord, SpecDocErr>(e@),
        },
{
    let ghost stv = st@;
    let missing = missing_keys(&st);
    if missing.len() > 0 {
        return Err(NarInfoErr::MissingField(missing));
    }
    let info = NarInfo {
        storepath: match st.storepath {
            Some(p) => p.1,
            None => String::new(),
        },
        url: match st.url {
            Some(p) => p.1,
            None => String::new(),
        },
        compression: match st.compression {
            Some(p) => p.1,
            None => String::new(),
        },
        file_hash: match st.file_hash {
            Some(p) => p.1,
            None => String::new(),
        },
        file_size: match st.file_size {
            Some(p) => p.1,
            None => 0,
        },
        nar_hash: match st.nar_hash {
            Some(p) => p.1,
            None => String::new(),
        },
        nar_size: match st.nar_size {
            Some(p) => p.1,
            None => 0,
        },
        references: match st.references {
            Some(p) => p.1,
            None => Vec::new(),
        },
        deriver: match st.deriver {
            Some(p) => p.1,
            None => DerivationId(String::new()),
        },
        signature: match st.signature {
            Some(p) => p.1,
            None => String::new(),
        },
    };
    proof {
        if stv.references is None {
            assert(info.references.deep_view() =~= Seq::<Seq<char>>::empty());
        }
        assert forall|i: int| 0 <= i < info@.references.len() implies id_ok(
            #[trigger] info@.references[i],
        ) by {
            assert(info.references[i].wf());
        }
    }
    Ok(info)
}

/// Splits the document at `\n`, tolerating one trailing empty line.
fn split_lines(doc: &str) -> (r: Vec<String>)
    ensures
        r.deep_view() == spec_lines(doc@),
{
    let n = doc.unicode_len();
    let mut lines: Vec<String> = Vec::new();
    let mut p: usize = 0;
    loop
        invariant_except_break
            split_at_char(doc@, '\n', 0) == lines.deep_view() + split_at_char(
                doc@,
                '\n',
                p as int,
            ),
        invariant
            p <= n,
            n == doc@.len(),
        ensures
            lines.deep_view() == split_at_char(doc@, '\n', 0),
            lines.len() > 0,
        decreases n - p,
    {
        let ghost prev = lines.deep_view();
        match text::find_char_at(doc, '\n', p) {
            Some(f) => {
                lines.push(doc.substring_char(p, f).to_owned());
                proof {
                    assert(lines.deep_view() =~= prev.push(doc@.subrange(p as int, f as int)));
                    assert(prev + split_at_char(doc@, '\n', p as int) =~= lines.deep_view()
                        + split_at_char(doc@, '\n', f + 1));
                }
                p = f + 1;
            },
            None => {
                lines.push(doc.substring_char(p, n).to_owned());
                proof {
                    assert(lines.deep_view() =~= prev.push(
                        doc@.subrange(p as int, doc@.len() as int),
                    ));
                    assert(prev + split_at_char(doc@, '\n', p as int) =~= lines.deep_view());
                }
                break;
            },
        }
    }
    let last_empty = match lines.last() {
        Some(l) => l.as_str().unicode_len() == 0,
        None => false,
    };
    if last_empty {
        let ghost prev = lines.deep_view();
        lines.pop();
        proof {
            assert(lines.deep_view() =~= prev.drop_last());
        }
    }
    lines
}

impl NarInfo {
    /// Parses one whole NarInfo document into a validated record, or into
    /// the structured error naming what failed: the first bad line with its
    /// 1-based number, a duplicated singleton field, every missing required
    /// field at once, or an empty document.
    pub fn parse_string(nar: String) -> (r: Result<NarInfo, NarInfoErr>)
        ensures
            match r {
                Ok(info) => spec_parse_narinfo(nar@) == Ok::<SpecRecord, SpecDocErr>(info@)
                    && info.wf(),
                Err(e) => spec_parse_narinfo(nar@) == Err::<SpecRecord, SpecDocErr>(e@),
            },
    {
        let lines = split_lines(nar.as_str());
        let ghost lseq = spec_lines(nar@);
        let n = lines.len();
        if n == 0 {
            return Err(NarInfoErr::DocumentEmpty);
        }
        let mut st = Partial::new();
        let mut i: usize = 0;
        while i < n
            invariant
                i <= n,
                n == lines.len(),
                n > 0,
                lines.deep_view() == lseq,
                lseq == spec_lines(nar@),
                partial_ids_ok(st),
                spec_assemble_at(lseq, 0, empty_partial()) == spec_assemble_at(
                    lseq,
                    i as int,
                    st@,
                ),
            decreases n - i,
        {
            proof {
                assert(lines[i as int]@ == lseq[i as int]);
            }
            let d = match Self::parse_line(lines[i].as_str()) {
                Err(e) => {
                    return Err(NarInfoErr::Line(i + 1, e));
                },
                Ok(d) => d,
            };
            match apply_datum(&mut st, i + 1, d) {
                Err(e) => {
                    return Err(e);
                },
                Ok(_) => {},
            }
            i += 1;
        }
        finish_record(st)
    }
}

} // verus!

