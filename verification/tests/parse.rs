use narinfo::num::NumErrKind;
use narinfo::{DerivationId, NarInfo, NarInfoDatum, NarInfoErr, NarInfoId, ParseErr};

#[test]
fn parse_line_badly_formatted() {
    assert_eq!(
        NarInfo::parse_line("hello goodbye"),
        Err(ParseErr::LineCorruptNoColon("hello goodbye".to_string()))
    );
}

#[test]
fn parse_u64_invalid_digit() {
    let ret = NarInfo::parse_u64("FooSize", "abc123");

    if let Err(ParseErr::InvalidU64(key, raw, kind)) = ret {
        assert_eq!(kind, NumErrKind::NonDigit);
        assert_eq!(key, "FooSize");
        assert_eq!(raw, "abc123");
    } else {
        panic!("Bad failure parsing: {:?}", ret);
    }
}

#[test]
fn parse_str_unexpected_space_err() {
    assert_eq!(
        NarInfo::parse_str_no_spaces("FooStr", "foo bar baz"),
        Err(ParseErr::UnexpectedSpace("FooStr".to_string(), 3))
    );
}

#[test]
fn parse_str_unexpected_space() {
    assert_eq!(
        NarInfo::parse_str_no_spaces("FooStr", "foobarbaz"),
        Ok("foobarbaz")
    );
}

#[test]
fn parse_line_narsize_invalid_digit() {
    let ret = NarInfo::parse_line("NarSize: abc123");

    if let Err(ParseErr::InvalidU64(key, raw, kind)) = ret {
        assert_eq!(kind, NumErrKind::NonDigit);
        assert_eq!(key, "NarSize");
        assert_eq!(raw, "abc123");
    } else {
        panic!("Bad failure parsing: {:?}", ret);
    }
}

#[test]
fn parse_line_narsize() {
    assert_eq!(
        NarInfo::parse_line("NarSize: 234987234"),
        Ok(NarInfoDatum::NarSize(234987234))
    );
}

#[test]
fn parse_line_filesize() {
    assert_eq!(
        NarInfo::parse_line("FileSize: 987987"),
        Ok(NarInfoDatum::FileSize(987987))
    );
}

#[test]
fn parse_line_compression() {
    assert_eq!(
        NarInfo::parse_line("Compression: xz"),
        Ok(NarInfoDatum::Compression("xz".to_string()))
    );
}

#[test]
fn parse_line_compression_embedded_space() {
    assert_eq!(
        NarInfo::parse_line("Compression: x z"),
        Err(ParseErr::UnexpectedSpace("Compression".to_string(), 1))
    );
}

#[test]
fn parse_line_unknown_key() {
    assert_eq!(
        NarInfo::parse_line("Flavour: mild"),
        Err(ParseErr::LineUnknownKey("Flavour".to_string()))
    );
}

#[test]
fn parse_line_storepath_empty_value() {
    assert_eq!(
        NarInfo::parse_line("StorePath:   "),
        Err(ParseErr::ValueEmpty("StorePath".to_string()))
    );
}

#[test]
fn parse_line_splits_at_first_colon_only() {
    assert_eq!(
        NarInfo::parse_line("Sig: cache.nixos.org-1:3likeFXa"),
        Ok(NarInfoDatum::Sig("cache.nixos.org-1:3likeFXa".to_string()))
    );
}

#[test]
fn parse_line_value_is_trimmed() {
    assert_eq!(
        NarInfo::parse_line("Compression: \t xz \r"),
        Ok(NarInfoDatum::Compression("xz".to_string()))
    );
}

#[test]
fn parse_u64_overflow() {
    let ret = NarInfo::parse_u64("FileSize", "99999999999999999999999");

    if let Err(ParseErr::InvalidU64(_, _, kind)) = ret {
        assert_eq!(kind, NumErrKind::Overflow);
    } else {
        panic!("Bad failure parsing: {:?}", ret);
    }
}

#[test]
fn parse_u64_empty() {
    let ret = NarInfo::parse_u64("FileSize", "");

    if let Err(ParseErr::InvalidU64(_, _, kind)) = ret {
        assert_eq!(kind, NumErrKind::Empty);
    } else {
        panic!("Bad failure parsing: {:?}", ret);
    }
}

#[test]
fn parse_u64_leading_zeros() {
    assert_eq!(NarInfo::parse_u64("FileSize", "000042"), Ok(42));
}

#[test]
fn parse_u64_max_value() {
    assert_eq!(
        NarInfo::parse_u64("FileSize", "18446744073709551615"),
        Ok(u64::MAX)
    );
    let ret = NarInfo::parse_u64("FileSize", "18446744073709551616");
    if let Err(ParseErr::InvalidU64(_, _, kind)) = ret {
        assert_eq!(kind, NumErrKind::Overflow);
    } else {
        panic!("Bad failure parsing: {:?}", ret);
    }
}

#[test]
fn parse_line_references_list() {
    let got = NarInfo::parse_line("References: aaa-one bbb-two aaa-one");
    let one = NarInfoId::new("aaa-one".to_string()).unwrap();
    let two = NarInfoId::new("bbb-two".to_string()).unwrap();
    assert_eq!(
        got,
        Ok(NarInfoDatum::References(vec![one.clone(), two, one]))
    );
}

#[test]
fn parse_line_references_empty() {
    assert_eq!(
        NarInfo::parse_line("References:"),
        Ok(NarInfoDatum::References(vec![]))
    );
}

#[test]
fn parse_line_references_extra_spaces() {
    let got = NarInfo::parse_line("References:   aaa-one    bbb-two  ");
    let one = NarInfoId::new("aaa-one".to_string()).unwrap();
    let two = NarInfoId::new("bbb-two".to_string()).unwrap();
    assert_eq!(got, Ok(NarInfoDatum::References(vec![one, two])));
}

#[test]
fn parse_line_deriver() {
    let got = NarInfo::parse_line("Deriver: qqq-bash.drv");
    let want = DerivationId::new("qqq-bash.drv".to_string()).unwrap();
    assert_eq!(got, Ok(NarInfoDatum::Deriver(want)));
}

#[test]
fn parse_line_deriver_with_space() {
    assert_eq!(
        NarInfo::parse_line("Deriver: qqq bash.drv"),
        Err(ParseErr::UnexpectedSpace("Deriver".to_string(), 3))
    );
}

#[test]
fn id_validation() {
    assert!(NarInfoId::new("abc-def".to_string()).is_some());
    assert!(NarInfoId::new("".to_string()).is_none());
    assert!(NarInfoId::new("ab cd".to_string()).is_none());
    assert!(DerivationId::new("abc-def.drv".to_string()).is_some());
    assert!(DerivationId::new("".to_string()).is_none());
    let id = NarInfoId::new("abc-def".to_string()).unwrap();
    assert_eq!(id.as_str(), "abc-def");
}

fn full_document() -> String {
    let lines = [
        "StorePath: /nix/store/xmxgxig6zxrixicc7905ssgb4yc3lysa-bash-interactive-4.4-p23",
        "URL: nar/1bn7c3bf5z32cdgylhbp9nzhh6lcjcl4dkxm4f1qs38zha7hx4p8.nar.xz",
        "Compression: xz",
        "FileHash: sha256:1bn7c3bf5z32cdgylhbp9nzhh6lcjcl4dkxm4f1qs38zha7hx4p8",
        "FileSize: 987987",
        "NarHash: sha256:0ccjlxs44qfq9hnilc4qws29ig4nlqpq2an5s6nmsnw2a2c4lghy",
        "NarSize: 234987234",
        "References: aaa-glibc-2.27 bbb-ncurses-6.1",
        "Deriver: a6xizp18g0sch9z7493p3irq632kzlym-bash-interactive-4.4-p23.drv",
        "Sig: cache.nixos.org-1:3likeFXa",
    ];
    lines.join("\n")
}

#[test]
fn parse_string_round_trip() {
    let record = NarInfo::parse_string(full_document()).unwrap();
    assert_eq!(
        record.storepath,
        "/nix/store/xmxgxig6zxrixicc7905ssgb4yc3lysa-bash-interactive-4.4-p23"
    );
    assert_eq!(
        record.url,
        "nar/1bn7c3bf5z32cdgylhbp9nzhh6lcjcl4dkxm4f1qs38zha7hx4p8.nar.xz"
    );
    assert_eq!(record.compression, "xz");
    assert_eq!(
        record.file_hash,
        "sha256:1bn7c3bf5z32cdgylhbp9nzhh6lcjcl4dkxm4f1qs38zha7hx4p8"
    );
    assert_eq!(record.file_size, 987987);
    assert_eq!(
        record.nar_hash,
        "sha256:0ccjlxs44qfq9hnilc4qws29ig4nlqpq2an5s6nmsnw2a2c4lghy"
    );
    assert_eq!(record.nar_size, 234987234);
    assert_eq!(record.references.len(), 2);
    assert_eq!(record.references[0].as_str(), "aaa-glibc-2.27");
    assert_eq!(record.references[1].as_str(), "bbb-ncurses-6.1");
    assert_eq!(
        record.deriver.as_str(),
        "a6xizp18g0sch9z7493p3irq632kzlym-bash-interactive-4.4-p23.drv"
    );
    assert_eq!(record.signature, "cache.nixos.org-1:3likeFXa");
}

#[test]
fn parse_string_twice_equal() {
    let first = NarInfo::parse_string(full_document()).unwrap();
    let second = NarInfo::parse_string(full_document()).unwrap();
    assert_eq!(first, second);
}

#[test]
fn parse_string_tolerates_trailing_newline() {
    let mut doc = full_document();
    doc.push('\n');
    let record = NarInfo::parse_string(doc).unwrap();
    assert_eq!(record.file_size, 987987);
}

#[test]
fn parse_string_missing_deriver() {
    let doc = full_document()
        .lines()
        .filter(|l| !l.starts_with("Deriver"))
        .collect::<Vec<_>>()
        .join("\n");
    assert_eq!(
        NarInfo::parse_string(doc),
        Err(NarInfoErr::MissingField(vec!["Deriver".to_string()]))
    );
}

#[test]
fn parse_string_missing_several_fields() {
    let doc = "Compression: xz\nNarSize: 5".to_string();
    assert_eq!(
        NarInfo::parse_string(doc),
        Err(NarInfoErr::MissingField(vec![
            "StorePath".to_string(),
            "URL".to_string(),
            "FileHash".to_string(),
            "FileSize".to_string(),
            "NarHash".to_string(),
            "Deriver".to_string(),
            "Sig".to_string(),
        ]))
    );
}

#[test]
fn parse_string_duplicate_filesize() {
    let mut doc = full_document();
    doc.push_str("\nFileSize: 11");
    assert_eq!(
        NarInfo::parse_string(doc),
        Err(NarInfoErr::DuplicateField("FileSize".to_string(), 5, 11))
    );
}

#[test]
fn parse_string_empty_document() {
    assert_eq!(
        NarInfo::parse_string(String::new()),
        Err(NarInfoErr::DocumentEmpty)
    );
}

#[test]
fn parse_string_reports_first_bad_line() {
    let doc = "Compression: xz\nno separator here\nNarSize: 5".to_string();
    assert_eq!(
        NarInfo::parse_string(doc),
        Err(NarInfoErr::Line(
            2,
            ParseErr::LineCorruptNoColon("no separator here".to_string())
        ))
    );
}

#[test]
fn parse_string_references_absent_defaults_empty() {
    let doc = full_document()
        .lines()
        .filter(|l| !l.starts_with("References"))
        .collect::<Vec<_>>()
        .join("\n");
    let record = NarInfo::parse_string(doc).unwrap();
    assert_eq!(record.references.len(), 0);
}
