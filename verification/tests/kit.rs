use layer_kit::error::LayerError;
use layer_kit::id::LayerId;
use layer_kit::json::{find_field, insert_field, no_fields, remove_field, Json};
use layer_kit::serve::dispatch_method;
use layer_kit::store::{
    database_path, database_variable, delete_statement, get_statement, list_statement,
    put_statement, was_deleted, Bound,
};
use layer_kit::test_support::{assert_catalogue_matches, CatalogueMismatch};
use layer_kit::text::{
    is_blank, parse_numeral, replace_first, split_once, strip_prefix, trim, write_decimal,
    write_decimal_signed,
};
use layer_kit::time::{now, now_rfc3339, Timestamp};

#[test]
fn ctor_and_display_roundtrip() {
    assert_eq!(LayerError::new("ai", "boom").display(), "ai: boom");
    assert_eq!(LayerError::new("serde", "bad json").display(), "serde: bad json");
    assert_eq!(
        LayerError::new("validation", "bad field").display(),
        "validation: bad field"
    );
}

#[test]
fn subset_of_variants_is_allowed() {
    let validation = LayerError::new("validation", String::from("x"));
    assert_eq!(validation.part, "validation");
    assert_eq!(validation.message, "x");
    assert_eq!(validation.display(), "validation: x");
    assert_eq!(LayerError::new("serde", "y").display(), "serde: y");
}

#[test]
fn display_and_parse_roundtrip() {
    let id = LayerId::new("tst");
    let shown = id.display();
    assert!(shown.starts_with("tst_"), "got {shown}");
    let back = LayerId::parse("tst", &shown).unwrap();
    assert_eq!(id, back);
    assert_eq!(id.prefix(), "tst");
}

#[test]
fn from_str_accepts_bare_uuid() {
    let bare = uuid::Uuid::now_v7().to_string();
    let parsed = LayerId::parse("tst", &bare).unwrap();
    assert_eq!(uuid::Uuid::from_u128(parsed.as_uuid()).to_string(), bare);
}

#[test]
fn from_uuid_wraps_given_uuid() {
    let raw = uuid::Uuid::now_v7().as_u128();
    assert_eq!(LayerId::from_uuid("tst", raw).as_uuid(), raw);
}

#[test]
fn default_and_as_uuid_agree_with_new() {
    let id = LayerId::new("tst");
    assert_eq!(id.as_uuid(), id.uuid);
}

#[test]
fn ids_are_shown_with_their_prefix() {
    let id = LayerId::from_uuid("ri", 0x0123_4567_89ab_7cde_8f01_2345_6789_abcd);
    assert_eq!(id.display(), "ri_01234567-89ab-7cde-8f01-23456789abcd");
    assert_eq!(LayerId::parse("ri", &id.display()), Ok(id));
    assert_eq!(LayerId::from_uuid("", 0).display(), "_00000000-0000-0000-0000-000000000000");
}

#[test]
fn fresh_ids_are_of_version_seven_and_differ() {
    let a = LayerId::new("x").as_uuid();
    let b = LayerId::new("x").as_uuid();
    assert_ne!(a, b);
    assert_eq!((a >> 76) & 0xf, 7);
    assert_eq!((a >> 62) & 0x3, 2);
}

#[test]
fn ids_of_another_kind_do_not_parse() {
    assert!(LayerId::parse("ri", "xx_01234567-89ab-7cde-8f01-23456789abcd").is_err());
    assert!(LayerId::parse("ri", "ri_").is_err());
    let error = LayerId::parse("ri", "").unwrap_err();
    assert_eq!(error, uuid::Uuid::parse_str("").unwrap_err().to_string());
    // The other forms of a UUID are read too.
    assert_eq!(
        LayerId::parse("ri", "ri_0123456789AB7CDE8F0123456789ABCD").unwrap().as_uuid(),
        0x0123_4567_89ab_7cde_8f01_2345_6789_abcd
    );
}

#[test]
fn moments_are_written_as_rfc3339() {
    let epoch = Timestamp { seconds: 0, nanos: 0 };
    assert_eq!(epoch.to_rfc3339(), Some("1970-01-01T00:00:00+00:00".to_owned()));
    let later = Timestamp { seconds: 1_800_000_000, nanos: 500_000_000 };
    assert_eq!(later.to_rfc3339(), Some("2027-01-15T08:00:00.500+00:00".to_owned()));
    assert_eq!(Timestamp { seconds: i64::MAX, nanos: 0 }.to_rfc3339(), None);
}

#[test]
fn now_is_a_moment_that_can_be_written() {
    let first = now();
    assert!(first.seconds > 1_600_000_000);
    assert!(first.nanos < 1_000_000_000);
    assert!(first.to_rfc3339().is_some());
    assert!(now_rfc3339().ends_with("+00:00"));
    assert!(now() >= first);
}

#[test]
fn database_lives_where_the_variable_says() {
    assert_eq!(database_variable("torii"), "TORII_DB");
    assert_eq!(database_path("torii", None), "torii.db");
    assert_eq!(database_path("torii", Some("/data/x".into())), "/data/x");
    assert!(was_deleted(1));
    assert!(!was_deleted(0));
}

#[test]
fn statements_carry_their_values_in_order() {
    let text = |s: &str| Bound::Text(s.to_owned());
    let put = put_statement("raw_item", "a", "{}", "2027-01-15T08:00:00+00:00");
    assert_eq!(
        put.sql,
        "INSERT INTO objects (kind, id, payload, created_at, updated_at) \
         VALUES (?1, ?2, ?3, ?4, ?4) \
         ON CONFLICT (kind, id) DO UPDATE SET payload = ?3, updated_at = ?4"
    );
    assert_eq!(
        put.values,
        [text("raw_item"), text("a"), text("{}"), text("2027-01-15T08:00:00+00:00")]
    );
    let get = get_statement("raw_item", "a");
    assert_eq!(get.sql, "SELECT payload FROM objects WHERE kind = ?1 AND id = ?2");
    assert_eq!(get.values, [text("raw_item"), text("a")]);
    let list = list_statement("decision", 10);
    assert_eq!(
        list.sql,
        "SELECT payload FROM objects WHERE kind = ?1 ORDER BY updated_at DESC, id DESC LIMIT ?2"
    );
    assert_eq!(list.values, [text("decision"), Bound::Integer(10)]);
    let delete = delete_statement("raw_item", "a");
    assert_eq!(delete.sql, "DELETE FROM objects WHERE kind = ?1 AND id = ?2");
    assert_eq!(delete.values, [text("raw_item"), text("a")]);
}

fn tool(name: &str) -> Json {
    Json::object(vec![("name", Json::string(name))])
}

#[test]
fn rejects_empty_and_both_mismatch_directions() {
    assert!(assert_catalogue_matches(&vec![], &vec!["torii.parse"]).is_err());
    assert!(assert_catalogue_matches(
        &vec![tool("torii_parse")],
        &vec!["torii.parse", "torii.ingest_raw"],
    )
    .is_err());
    assert!(assert_catalogue_matches(
        &vec![tool("torii_parse"), tool("torii_ingest_raw")],
        &vec!["torii.parse"],
    )
    .is_err());
}

#[test]
fn catalogue_mismatches_are_named() {
    let verdict = |tools: Vec<Json>, methods: Vec<&str>| assert_catalogue_matches(&tools, &methods);
    assert!(matches!(verdict(vec![], vec![]), Err(CatalogueMismatch::Empty)));
    assert!(matches!(
        verdict(vec![tool("a_b"), Json::object(vec![])], vec!["a.b"]),
        Err(CatalogueMismatch::Nameless)
    ));
    assert!(matches!(
        verdict(vec![tool("a_b")], vec!["a.c", "a.b", "a.c"]),
        Err(CatalogueMismatch::Missing(m)) if m == ["a.c"]
    ));
    assert!(matches!(
        verdict(vec![tool("a_b"), tool("a_d"), tool("a_d")], vec!["a.b"]),
        Err(CatalogueMismatch::Extra(m)) if m == ["a.d"]
    ));
    assert!(verdict(
        vec![tool("a_b_c"), tool("plain"), tool("a_b_c")],
        vec!["plain", "a.b_c", "plain"]
    )
    .is_ok());
}

#[test]
fn catalogue_and_dispatcher_agree() {
    for name in ["torii_parse", "torii_ingest_raw", "torii_"] {
        assert_eq!(replace_first(name, '_', '.'), dispatch_method("torii", name));
    }
    // A tool with an underscore in its own name is where they part.
    assert_ne!(replace_first("a_b_c", '_', '.'), dispatch_method("a_b", "a_b_c"));
}

#[test]
fn fields_stay_in_order() {
    let mut fields = no_fields();
    insert_field(&mut fields, "b", Json::unsigned(1));
    insert_field(&mut fields, "a", Json::unsigned(2));
    insert_field(&mut fields, "b", Json::unsigned(3));
    insert_field(&mut fields, "ab", Json::Null);
    insert_field(&mut fields, "\u{1f600}", Json::Null);
    insert_field(&mut fields, "\u{ffff}", Json::Null);
    let keys: Vec<&str> = fields.iter().map(|f| f.0.as_str()).collect();
    assert_eq!(keys, ["a", "ab", "b", "\u{ffff}", "\u{1f600}"]);
    assert_eq!(find_field(&fields, "b"), Some(&Json::unsigned(3)));
    assert_eq!(find_field(&fields, "c"), None);
    assert_eq!(remove_field(&mut fields, "a"), Some(Json::unsigned(2)));
    assert_eq!(remove_field(&mut fields, "a"), None);
    assert_eq!(find_field(&fields, "a"), None);
    assert_eq!(find_field(&fields, "ab"), Some(&Json::Null));
}

#[test]
fn texts_are_cut_by_characters() {
    assert_eq!(strip_prefix("éa", "é"), Some("a"));
    assert_eq!(strip_prefix("éa", "a"), None);
    assert_eq!(strip_prefix("a", ""), Some("a"));
    assert_eq!(strip_prefix("a", "ab"), None);
    assert_eq!(split_once("é.b.c", '.'), Some(("é", "b.c")));
    assert_eq!(split_once(".", '.'), Some(("", "")));
    assert_eq!(split_once("ab", '.'), None);
    assert_eq!(replace_first("a_b_c", '_', '.'), "a.b_c");
    assert_eq!(replace_first("abc", '_', '.'), "abc");
    assert_eq!(trim(" \t é \u{2003}\r\n"), "é");
    assert_eq!(trim("\u{85}\u{a0}"), "");
    assert!(is_blank(" \u{1680}\u{2028}\u{205f}"));
    assert!(!is_blank("\u{200b}"));
}

#[test]
fn white_space_is_that_of_the_standard_library() {
    for n in 0..=0x10ffffu32 {
        if let Some(c) = char::from_u32(n) {
            assert_eq!(layer_kit::text::is_white(c), c.is_whitespace(), "{n:x}");
        }
    }
}

#[test]
fn numerals_are_decimal() {
    for n in [0u64, 9, 10, 909, 1_000_000, u64::MAX] {
        assert_eq!(write_decimal(n), n.to_string());
        assert_eq!(parse_numeral(&n.to_string()), Some(n));
    }
    for i in [0i64, -1, 42, i64::MIN, i64::MAX] {
        assert_eq!(write_decimal_signed(i), i.to_string());
    }
    for text in ["", "+", "+7", "007", "-1", " 1", "1a", "18446744073709551616", "99999999999999999999999"] {
        assert_eq!(parse_numeral(text), text.parse::<u64>().ok(), "{text}");
    }
}
