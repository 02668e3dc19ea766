//! The general laws of the parser, stated over the specification functions
//! that the executable functions are proved against.

use vstd::prelude::*;

verus! {

use crate::num::{NumErrKind, spec_dec_u64};
use crate::text::{find_first, lemma_find_at, spec_trim, space_tokens};
use crate::{
    SpecDatum, SpecDocErr, SpecLineErr, SpecPartial, SpecRecord, empty_partial, spec_apply,
    spec_assemble, spec_assemble_at, spec_dispatch, spec_finish, spec_missing, spec_parse_line,
    spec_parse_narinfo, spec_space_free,
};

/// A line without a colon is rejected as `LineCorruptNoColon`, carrying the
/// whole line.
pub proof fn lemma_line_no_colon(line: Seq<char>)
    requires
        forall|j: int| 0 <= j < line.len() ==> line[j] != ':',
    ensures
        spec_parse_line(line) == Err::<SpecDatum, SpecLineErr>(SpecLineErr::NoColon(line)),
{
    lemma_find_at(line, ':', 0);
}

/// A line `key` `:` `raw`, with no colon in the key, splits at exactly that
/// colon: it decodes as the key directs, on the trimmed value.
pub proof fn lemma_line_split(key: Seq<char>, raw: Seq<char>)
    requires
        forall|j: int| 0 <= j < key.len() ==> key[j] != ':',
    ensures
        spec_parse_line(key + seq![':'] + raw) == spec_dispatch(key, spec_trim(raw)),
{
    let line = key + seq![':'] + raw;
    let k = key.len() as int;
    assert(line[k] == ':');
    lemma_find_at(line, ':', 0);
    let f = find_first(line, ':');
    assert(f != -1);
    if f < k {
        assert(line[f] == key[f]);
    }
    assert(f == k);
    assert(line.subrange(0, k) =~= key);
    assert(line.subrange(k + 1, line.len() as int) =~= raw);
}

/// A whitespace-free field value with a space at index `i` and none earlier
/// is rejected with `UnexpectedSpace` carrying exactly `i`.
pub proof fn lemma_space_offset(key: Seq<char>, v: Seq<char>, i: int)
    requires
        0 <= i < v.len(),
        v[i] == ' ',
        forall|j: int| 0 <= j < i ==> v[j] != ' ',
    ensures
        spec_space_free(key, v) == Err::<Seq<char>, SpecLineErr>(
            SpecLineErr::UnexpectedSpace(key, i),
        ),
{
    lemma_find_at(v, ' ', 0);
    let f = find_first(v, ' ');
    assert(f != -1);
    if f < i {
        assert(v[f] != ' ');
    }
    assert(f == i);
}

/// Parsing is a pure function of the document text: the same text yields
/// the same outcome, so parsing a document twice gives equal results.
pub proof fn lemma_parse_deterministic(a: Seq<char>, b: Seq<char>)
    requires
        a == b,
    ensures
        spec_parse_narinfo(a) == spec_parse_narinfo(b),
{
}

/// The field of the record that a decoded line sets.
pub ghost enum FieldKind {
    StorePath,
    Url,
    Compression,
    FileHash,
    FileSize,
    NarHash,
    NarSize,
    References,
    Deriver,
    Sig,
}

/// The kind of field a decoded datum carries.
pub open spec fn datum_kind(d: SpecDatum) -> FieldKind {
    match d {
        SpecDatum::StorePath(_) => FieldKind::StorePath,
        SpecDatum::Url(_) => FieldKind::Url,
        SpecDatum::Compression(_) => FieldKind::Compression,
        SpecDatum::FileHash(_) => FieldKind::FileHash,
        SpecDatum::FileSize(_) => FieldKind::FileSize,
        SpecDatum::NarHash(_) => FieldKind::NarHash,
        SpecDatum::NarSize(_) => FieldKind::NarSize,
        SpecDatum::References(_) => FieldKind::References,
        SpecDatum::Deriver(_) => FieldKind::Deriver,
        SpecDatum::Sig(_) => FieldKind::Sig,
    }
}

/// Whether the field of kind `k` is already set in `st`.
pub open spec fn kind_set(st: SpecPartial, k: FieldKind) -> bool {
    match k {
        FieldKind::StorePath => st.storepath is Some,
        FieldKind::Url => st.url is Some,
        FieldKind::Compression => st.compression is Some,
        FieldKind::FileHash => st.file_hash is Some,
        FieldKind::FileSize => st.file_size is Some,
        FieldKind::NarHash => st.nar_hash is Some,
        FieldKind::NarSize => st.nar_size is Some,
        FieldKind::References => st.references is Some,
        FieldKind::Deriver => st.deriver is Some,
        FieldKind::Sig => st.signature is Some,
    }
}

/// Whether the record field that `d` sets holds exactly the value of `d`.
pub open spec fn record_field_matches(r: SpecRecord, d: SpecDatum) -> bool {
    match d {
        SpecDatum::StorePath(v) => r.storepath == v,
        SpecDatum::Url(v) => r.url == v,
        SpecDatum::Compression(v) => r.compression == v,
        SpecDatum::FileHash(v) => r.file_hash == v,
        SpecDatum::FileSize(v) => r.file_size == v,
        SpecDatum::NarHash(v) => r.nar_hash == v,
        SpecDatum::NarSize(v) => r.nar_size == v,
        SpecDatum::References(v) => r.references == v,
        SpecDatum::Deriver(v) => r.deriver == v,
        SpecDatum::Sig(v) => r.signature == v,
    }
}

/// Whether every field already set in `st` keeps its value in `r`.
pub open spec fn record_keeps(st: SpecPartial, r: SpecRecord) -> bool {
    (st.storepath matches Some(p) ==> r.storepath == p.1) && (st.url matches Some(p)
        ==> r.url == p.1) && (st.compression matches Some(p) ==> r.compression == p.1)
        && (st.file_hash matches Some(p) ==> r.file_hash == p.1) && (st.file_size matches Some(p)
        ==> r.file_size == p.1) && (st.nar_hash matches Some(p) ==> r.nar_hash == p.1)
        && (st.nar_size matches Some(p) ==> r.nar_size == p.1) && (st.references matches Some(p)
        ==> r.references == p.1) && (st.deriver matches Some(p) ==> r.deriver == p.1)
        && (st.signature matches Some(p) ==> r.signature == p.1)
}

/// Whether every field set in `a` is set in `b`, to the same line and value.
spec fn partial_leq(a: SpecPartial, b: SpecPartial) -> bool {
    &&& (a.storepath matches Some(p) ==> b.storepath == Some(p))
    &&& (a.url matches Some(p) ==> b.url == Some(p))
    &&& (a.compression matches Some(p) ==> b.compression == Some(p))
    &&& (a.file_hash matches Some(p) ==> b.file_hash == Some(p))
    &&& (a.file_size matches Some(p) ==> b.file_size == Some(p))
    &&& (a.nar_hash matches Some(p) ==> b.nar_hash == Some(p))
    &&& (a.nar_size matches Some(p) ==> b.nar_size == Some(p))
    &&& (a.references matches Some(p) ==> b.references == Some(p))
    &&& (a.deriver matches Some(p) ==> b.deriver == Some(p))
    &&& (a.signature matches Some(p) ==> b.signature == Some(p))
}

/// Whether the field of `d` is set in `st` to line `ln` and `d`'s value.
spec fn field_set_to(st: SpecPartial, ln: int, d: SpecDatum) -> bool {
    match d {
        SpecDatum::StorePath(v) => st.storepath == Some((ln, v)),
        SpecDatum::Url(v) => st.url == Some((ln, v)),
        SpecDatum::Compression(v) => st.compression == Some((ln, v)),
        SpecDatum::FileHash(v) => st.file_hash == Some((ln, v)),
        SpecDatum::FileSize(v) => st.file_size == Some((ln, v)),
        SpecDatum::NarHash(v) => st.nar_hash == Some((ln, v)),
        SpecDatum::NarSize(v) => st.nar_size == Some((ln, v)),
        SpecDatum::References(v) => st.references == Some((ln, v)),
        SpecDatum::Deriver(v) => st.deriver == Some((ln, v)),
        SpecDatum::Sig(v) => st.signature == Some((ln, v)),
    }
}

/// Committing a datum whose field is not yet set succeeds; it sets exactly
/// that field and keeps every other.
proof fn lemma_apply_step(st: SpecPartial, ln: int, d: SpecDatum)
    requires
        !kind_set(st, datum_kind(d)),
    ensures
        spec_apply(st, ln, d) is Ok,
        partial_leq(st, spec_apply(st, ln, d)->Ok_0),
        field_set_to(spec_apply(st, ln, d)->Ok_0, ln, d),
        forall|k: FieldKind| #[trigger]
            kind_set(spec_apply(st, ln, d)->Ok_0, k) == (kind_set(st, k) || k == datum_kind(d)),
{
    let st2 = spec_apply(st, ln, d)->Ok_0;
    assert forall|k: FieldKind| #[trigger]
        kind_set(st2, k) == (kind_set(st, k) || k == datum_kind(d)) by {
        match k {
            FieldKind::StorePath => {},
            FieldKind::Url => {},
            FieldKind::Compression => {},
            FieldKind::FileHash => {},
            FieldKind::FileSize => {},
            FieldKind::NarHash => {},
            FieldKind::NarSize => {},
            FieldKind::References => {},
            FieldKind::Deriver => {},
            FieldKind::Sig => {},
        }
    }
}

/// A record that keeps the larger state keeps the smaller one too.
proof fn lemma_keeps_trans(a: SpecPartial, b: SpecPartial, r: SpecRecord)
    requires
        partial_leq(a, b),
        record_keeps(b, r),
    ensures
        record_keeps(a, r),
{
}

/// A record that keeps a state holding `d`'s field carries `d`'s value.
proof fn lemma_keeps_field(st: SpecPartial, ln: int, d: SpecDatum, r: SpecRecord)
    requires
        field_set_to(st, ln, d),
        record_keeps(st, r),
    ensures
        record_field_matches(r, d),
{
}

/// Assembly from line `i` in state `st` succeeds when every remaining line
/// decodes, no two remaining lines set the same field, no remaining line
/// sets a field already set, and every required field is set or supplied;
/// the record then carries each line's value, and keeps what `st` held.
#[verifier::rlimit(100)]
#[verifier::spinoff_prover]
proof fn lemma_assemble_success(lines: Seq<Seq<char>>, i: int, st: SpecPartial)
    requires
        0 <= i <= lines.len(),
        forall|j: int| i <= j < lines.len() ==> #[trigger] spec_parse_line(lines[j]) is Ok,
        forall|j: int, k: int|
            i <= j < k < lines.len() ==> datum_kind(#[trigger] spec_parse_line(lines[j])->Ok_0)
                != datum_kind(#[trigger] spec_parse_line(lines[k])->Ok_0),
        forall|j: int|
            i <= j < lines.len() ==> !kind_set(
                st,
                datum_kind(#[trigger] spec_parse_line(lines[j])->Ok_0),
            ),
        forall|k: FieldKind|
            k != FieldKind::References ==> (kind_set(st, k) || exists|j: int|
                i <= j < lines.len() && datum_kind(
                    #[trigger] spec_parse_line(lines[j])->Ok_0,
                ) == k),
    ensures
        spec_assemble_at(lines, i, st) is Ok,
        forall|j: int|
            i <= j < lines.len() ==> record_field_matches(
                spec_assemble_at(lines, i, st)->Ok_0,
                #[trigger] spec_parse_line(lines[j])->Ok_0,
            ),
        record_keeps(st, spec_assemble_at(lines, i, st)->Ok_0),
    decreases lines.len() - i,
{
    if i == lines.len() {
        assert forall|k: FieldKind| k != FieldKind::References implies kind_set(st, k) by {
            assert(!(exists|j: int|
                i <= j < lines.len() && datum_kind(spec_parse_line(lines[j])->Ok_0) == k));
        }
        assert(kind_set(st, FieldKind::StorePath));
        assert(kind_set(st, FieldKind::Url));
        assert(kind_set(st, FieldKind::Compression));
        assert(kind_set(st, FieldKind::FileHash));
        assert(kind_set(st, FieldKind::FileSize));
        assert(kind_set(st, FieldKind::NarHash));
        assert(kind_set(st, FieldKind::NarSize));
        assert(kind_set(st, FieldKind::Deriver));
        assert(kind_set(st, FieldKind::Sig));
        assert(spec_missing(st).len() == 0);
    } else {
        let d = spec_parse_line(lines[i])->Ok_0;
        assert(spec_parse_line(lines[i]) is Ok);
        assert(!kind_set(st, datum_kind(d)));
        lemma_apply_step(st, i + 1, d);
        let st2 = spec_apply(st, i + 1, d)->Ok_0;
        assert forall|j: int| i + 1 <= j < lines.len() implies !kind_set(
            st2,
            datum_kind(#[trigger] spec_parse_line(lines[j])->Ok_0),
        ) by {
            assert(datum_kind(spec_parse_line(lines[j])->Ok_0) != datum_kind(
                spec_parse_line(lines[i])->Ok_0,
            ));
        }
        assert forall|k: FieldKind| k != FieldKind::References implies (kind_set(st2, k)
            || exists|j: int|
            i + 1 <= j < lines.len() && datum_kind(
                #[trigger] spec_parse_line(lines[j])->Ok_0,
            ) == k) by {
            if !kind_set(st2, k) {
                let j = choose|j: int|
                    i <= j < lines.len() && datum_kind(
                        #[trigger] spec_parse_line(lines[j])->Ok_0,
                    ) == k;
                assert(j != i);
            }
        }
        lemma_assemble_success(lines, i + 1, st2);
        let r = spec_assemble_at(lines, i + 1, st2)->Ok_0;
        lemma_keeps_trans(st, st2, r);
        lemma_keeps_field(st2, i + 1, d, r);
        assert(spec_assemble_at(lines, i, st) == spec_assemble_at(lines, i + 1, st2));
    }
}

/// Whether some line of the document sets the field of kind `k`.
pub open spec fn supplies(lines: Seq<Seq<char>>, k: FieldKind) -> bool {
    exists|j: int|
        0 <= j < lines.len() && datum_kind(#[trigger] spec_parse_line(lines[j])->Ok_0) == k
}

/// Round trip, in any line order: a document whose lines each decode, no
/// two setting the same field, with all nine required fields supplied,
/// assembles into the record that carries each line's value verbatim; with
/// no `References` line the reference list is empty.
pub proof fn lemma_round_trip_any_order(lines: Seq<Seq<char>>)
    requires
        lines.len() > 0,
        forall|j: int| 0 <= j < lines.len() ==> #[trigger] spec_parse_line(lines[j]) is Ok,
        forall|j: int, k: int|
            0 <= j < k < lines.len() ==> datum_kind(#[trigger] spec_parse_line(lines[j])->Ok_0)
                != datum_kind(#[trigger] spec_parse_line(lines[k])->Ok_0),
        supplies(lines, FieldKind::StorePath),
        supplies(lines, FieldKind::Url),
        supplies(lines, FieldKind::Compression),
        supplies(lines, FieldKind::FileHash),
        supplies(lines, FieldKind::FileSize),
        supplies(lines, FieldKind::NarHash),
        supplies(lines, FieldKind::NarSize),
        supplies(lines, FieldKind::Deriver),
        supplies(lines, FieldKind::Sig),
    ensures
        spec_assemble(lines) is Ok,
        forall|j: int|
            0 <= j < lines.len() ==> record_field_matches(
                spec_assemble(lines)->Ok_0,
                #[trigger] spec_parse_line(lines[j])->Ok_0,
            ),
        (forall|j: int|
            0 <= j < lines.len() ==> datum_kind(#[trigger] spec_parse_line(lines[j])->Ok_0)
                != FieldKind::References) ==> spec_assemble(lines)->Ok_0.references
            == Seq::<Seq<char>>::empty(),
{
    assert forall|k: FieldKind| k != FieldKind::References implies (kind_set(empty_partial(), k)
        || exists|j: int|
        0 <= j < lines.len() && datum_kind(#[trigger] spec_parse_line(lines[j])->Ok_0) == k) by {
        assert(supplies(lines, k));
    }
    lemma_assemble_success(lines, 0, empty_partial());
    if forall|j: int|
        0 <= j < lines.len() ==> datum_kind(#[trigger] spec_parse_line(lines[j])->Ok_0)
            != FieldKind::References {
        lemma_assemble_no_references(lines, 0, empty_partial());
    }
}

/// When no remaining line sets `References` and `st` has none either, the
/// assembled record's reference list is empty.
proof fn lemma_assemble_no_references(lines: Seq<Seq<char>>, i: int, st: SpecPartial)
    requires
        0 <= i <= lines.len(),
        st.references is None,
        spec_assemble_at(lines, i, st) is Ok,
        forall|j: int|
            i <= j < lines.len() ==> (#[trigger] spec_parse_line(lines[j]) is Ok && datum_kind(
                spec_parse_line(lines[j])->Ok_0,
            ) != FieldKind::References),
    ensures
        spec_assemble_at(lines, i, st)->Ok_0.references == Seq::<Seq<char>>::empty(),
    decreases lines.len() - i,
{
    if i < lines.len() {
        let d = spec_parse_line(lines[i])->Ok_0;
        let applied = spec_apply(st, i + 1, d);
        assert(applied is Ok);
        lemma_assemble_no_references(lines, i + 1, applied->Ok_0);
    }
}

/// Round trip: a well-formed document that carries each of the nine
/// required fields exactly once, in record order, and one `References`
/// line, assembles into the record holding exactly the given values - no
/// normalization happens beyond the documented trim, and the reference
/// list is the space-separated value split into its tokens.
#[verifier::rlimit(100)]
pub proof fn lemma_round_trip(
    sp: Seq<char>,
    url: Seq<char>,
    comp: Seq<char>,
    fh: Seq<char>,
    fsv: Seq<char>,
    fs_n: u64,
    nh: Seq<char>,
    nsv: Seq<char>,
    ns_n: u64,
    refs_v: Seq<char>,
    drv: Seq<char>,
    sig: Seq<char>,
)
    requires
        sp.len() > 0,
        spec_trim(sp) == sp,
        url.len() > 0,
        spec_trim(url) == url,
        spec_trim(comp) == comp,
        find_first(comp, ' ') == -1,
        spec_trim(fh) == fh,
        find_first(fh, ' ') == -1,
        spec_trim(fsv) == fsv,
        spec_dec_u64(fsv) == Ok::<u64, NumErrKind>(fs_n),
        spec_trim(nh) == nh,
        find_first(nh, ' ') == -1,
        spec_trim(nsv) == nsv,
        spec_dec_u64(nsv) == Ok::<u64, NumErrKind>(ns_n),
        spec_trim(refs_v) == refs_v,
        drv.len() > 0,
        spec_trim(drv) == drv,
        find_first(drv, ' ') == -1,
        spec_trim(sig) == sig,
    ensures
        spec_assemble(
            seq![
                "StorePath"@ + seq![':'] + sp,
                "URL"@ + seq![':'] + url,
                "Compression"@ + seq![':'] + comp,
                "FileHash"@ + seq![':'] + fh,
                "FileSize"@ + seq![':'] + fsv,
                "NarHash"@ + seq![':'] + nh,
                "NarSize"@ + seq![':'] + nsv,
                "References"@ + seq![':'] + refs_v,
                "Deriver"@ + seq![':'] + drv,
                "Sig"@ + seq![':'] + sig,
            ],
        ) == Ok::<SpecRecord, SpecDocErr>(
            SpecRecord {
                storepath: sp,
                url: url,
                compression: comp,
                file_hash: fh,
                file_size: fs_n,
                nar_hash: nh,
                nar_size: ns_n,
                references: space_tokens(refs_v, 0),
                deriver: drv,
                signature: sig,
            },
        ),
{
    reveal_strlit("StorePath");
    reveal_strlit("URL");
    reveal_strlit("Compression");
    reveal_strlit("FileHash");
    reveal_strlit("FileSize");
    reveal_strlit("NarHash");
    reveal_strlit("NarSize");
    reveal_strlit("References");
    reveal_strlit("Deriver");
    reveal_strlit("Sig");
    let lines = seq![
        "StorePath"@ + seq![':'] + sp,
        "URL"@ + seq![':'] + url,
        "Compression"@ + seq![':'] + comp,
        "FileHash"@ + seq![':'] + fh,
        "FileSize"@ + seq![':'] + fsv,
        "NarHash"@ + seq![':'] + nh,
        "NarSize"@ + seq![':'] + nsv,
        "References"@ + seq![':'] + refs_v,
        "Deriver"@ + seq![':'] + drv,
        "Sig"@ + seq![':'] + sig,
    ];
    lemma_line_split("StorePath"@, sp);
    lemma_line_split("URL"@, url);
    lemma_line_split("Compression"@, comp);
    lemma_line_split("FileHash"@, fh);
    lemma_line_split("FileSize"@, fsv);
    lemma_line_split("NarHash"@, nh);
    lemma_line_split("NarSize"@, nsv);
    lemma_line_split("References"@, refs_v);
    lemma_line_split("Deriver"@, drv);
    lemma_line_split("Sig"@, sig);
    assert("FileSize"@ != "FileHash"@) by {
        assert("FileSize"@[4] == 'S');
        assert("FileHash"@[4] == 'H');
    }
    assert("NarSize"@ != "NarHash"@) by {
        assert("NarSize"@[3] == 'S');
        assert("NarHash"@[3] == 'H');
    }
    assert(spec_parse_line(lines[0]) == Ok::<SpecDatum, SpecLineErr>(SpecDatum::StorePath(sp)));
    assert(spec_parse_line(lines[1]) == Ok::<SpecDatum, SpecLineErr>(SpecDatum::Url(url)));
    assert(spec_parse_line(lines[2]) == Ok::<SpecDatum, SpecLineErr>(
        SpecDatum::Compression(comp),
    ));
    assert(spec_parse_line(lines[3]) == Ok::<SpecDatum, SpecLineErr>(SpecDatum::FileHash(fh)));
    assert(spec_parse_line(lines[4]) == Ok::<SpecDatum, SpecLineErr>(SpecDatum::FileSize(fs_n)));
    assert(spec_parse_line(lines[5]) == Ok::<SpecDatum, SpecLineErr>(SpecDatum::NarHash(nh)));
    assert(spec_parse_line(lines[6]) == Ok::<SpecDatum, SpecLineErr>(SpecDatum::NarSize(ns_n)));
    assert(spec_parse_line(lines[7]) == Ok::<SpecDatum, SpecLineErr>(
        SpecDatum::References(space_tokens(refs_v, 0)),
    ));
    assert(spec_parse_line(lines[8]) == Ok::<SpecDatum, SpecLineErr>(SpecDatum::Deriver(drv)));
    assert(spec_parse_line(lines[9]) == Ok::<SpecDatum, SpecLineErr>(SpecDatum::Sig(sig)));
    let st0 = empty_partial();
    let st1 = spec_apply(st0, 1, SpecDatum::StorePath(sp))->Ok_0;
    let st2 = spec_apply(st1, 2, SpecDatum::Url(url))->Ok_0;
    let st3 = spec_apply(st2, 3, SpecDatum::Compression(comp))->Ok_0;
    let st4 = spec_apply(st3, 4, SpecDatum::FileHash(fh))->Ok_0;
    let st5 = spec_apply(st4, 5, SpecDatum::FileSize(fs_n))->Ok_0;
    let st6 = spec_apply(st5, 6, SpecDatum::NarHash(nh))->Ok_0;
    let st7 = spec_apply(st6, 7, SpecDatum::NarSize(ns_n))->Ok_0;
    let st8 = spec_apply(st7, 8, SpecDatum::References(space_tokens(refs_v, 0)))->Ok_0;
    let st9 = spec_apply(st8, 9, SpecDatum::Deriver(drv))->Ok_0;
    let st10 = spec_apply(st9, 10, SpecDatum::Sig(sig))->Ok_0;
    assert(spec_assemble_at(lines, 10, st10) == spec_finish(st10));
    assert(spec_missing(st10).len() == 0);
    assert(spec_assemble_at(lines, 9, st9) == spec_assemble_at(lines, 10, st10));
    assert(spec_assemble_at(lines, 8, st8) == spec_assemble_at(lines, 9, st9));
    assert(spec_assemble_at(lines, 7, st7) == spec_assemble_at(lines, 8, st8));
    assert(spec_assemble_at(lines, 6, st6) == spec_assemble_at(lines, 7, st7));
    assert(spec_assemble_at(lines, 5, st5) == spec_assemble_at(lines, 6, st6));
    assert(spec_assemble_at(lines, 4, st4) == spec_assemble_at(lines, 5, st5));
    assert(spec_assemble_at(lines, 3, st3) == spec_assemble_at(lines, 4, st4));
    assert(spec_assemble_at(lines, 2, st2) == spec_assemble_at(lines, 3, st3));
    assert(spec_assemble_at(lines, 1, st1) == spec_assemble_at(lines, 2, st2));
    assert(spec_assemble_at(lines, 0, st0) == spec_assemble_at(lines, 1, st1));
}

} // verus!
