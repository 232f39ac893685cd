use layer_kit::auth::{accept, frame_claims, mint, open_token, verify, write_claims, Claims};

fn claims(tool: &str, exp: i64) -> Claims {
    Claims {
        workspace: "ws1".into(),
        project: Some("p1".into()),
        tool: tool.into(),
        exp,
    }
}

/// Reads the claims of a payload.
fn read(payload: Vec<u8>) -> Option<Claims> {
    let value: serde_json::Value = serde_json::from_slice(&payload).ok()?;
    Some(Claims {
        workspace: value.get("workspace")?.as_str()?.to_owned(),
        project: match value.get("project") {
            None | Some(serde_json::Value::Null) => None,
            Some(project) => Some(project.as_str()?.to_owned()),
        },
        tool: value.get("tool")?.as_str()?.to_owned(),
        exp: value.get("exp")?.as_i64()?,
    })
}

#[test]
fn valid_token_round_trips() {
    let secret = b"platform-secret";
    let t = mint(secret, &claims("test-tool", 10_000));
    assert_eq!(
        verify(secret, "test-tool", 9_999, &t, read).unwrap().workspace,
        "ws1"
    );
}

#[test]
fn token_wire_format_is_stable() {
    let claims = Claims {
        workspace: "workspace-1".into(),
        project: Some("project-1".into()),
        tool: "torii".into(),
        exp: 1_800_000_000,
    };
    let token = mint(b"fixed-secret", &claims);
    assert_eq!(
        token,
        "eyJ3b3Jrc3BhY2UiOiJ3b3Jrc3BhY2UtMSIsInByb2plY3QiOiJwcm9qZWN0LTEiLCJ0b29sIjoidG9yaWkiLCJleHAiOjE4MDAwMDAwMDB9.4ZUc212HFNw78tT7seElX0HgZjorhLVGTGQ_7WlRqA0"
    );
    assert_eq!(
        verify(b"fixed-secret", "torii", 1_700_000_000, &token, read),
        Some(claims)
    );

    let claims = Claims {
        workspace: "workspace-1".into(),
        project: None,
        tool: "torii".into(),
        exp: 1_800_000_000,
    };
    let token = mint(b"fixed-secret", &claims);
    assert_eq!(
        token,
        "eyJ3b3Jrc3BhY2UiOiJ3b3Jrc3BhY2UtMSIsInByb2plY3QiOm51bGwsInRvb2wiOiJ0b3JpaSIsImV4cCI6MTgwMDAwMDAwMH0.ZDQSmjgauWhqrmdu_u7ZL9LIQ9VeDcT-h5TdrZshuAc"
    );
    assert_eq!(
        verify(b"fixed-secret", "torii", 1_700_000_000, &token, read),
        Some(claims)
    );
}

#[test]
fn rejects_wrong_secret_expiry_and_audience() {
    let secret = b"platform-secret";
    let t = mint(secret, &claims("test-tool", 10_000));
    assert!(verify(b"other", "test-tool", 1, &t, read).is_none(), "wrong secret");
    assert!(verify(secret, "test-tool", 10_001, &t, read).is_none(), "expired");
    assert!(verify(secret, "other-tool", 1, &t, read).is_none(), "wrong audience");
    assert!(verify(secret, "test-tool", 1, "garbage", read).is_none(), "malformed");
}

#[test]
fn a_token_is_valid_up_to_and_at_its_expiry() {
    let t = mint(b"s", &claims("t", 10_000));
    assert_eq!(verify(b"s", "t", 10_000, &t, read), Some(claims("t", 10_000)));
    assert_eq!(verify(b"s", "t", 10_001, &t, read), None);
    assert_eq!(verify(b"s", "t", i64::MIN, &t, read), Some(claims("t", 10_000)));
}

#[test]
fn claims_are_written_in_declared_order_and_quoted() {
    let odd = Claims {
        workspace: "a\"b\\c\n\u{1}é".into(),
        project: None,
        tool: "t/".into(),
        exp: i64::MIN,
    };
    assert_eq!(
        write_claims(&odd),
        "{\"workspace\":\"a\\\"b\\\\c\\n\\u0001é\",\"project\":null,\"tool\":\"t/\",\"exp\":-9223372036854775808}"
    );
    let t = mint(b"", &odd);
    assert_eq!(verify(b"", "t/", i64::MIN, &t, read), Some(odd));
    assert_eq!(
        write_claims(&claims("x", 0)),
        r#"{"workspace":"ws1","project":"p1","tool":"x","exp":0}"#
    );
}

#[test]
fn written_texts_are_framed_as_claims() {
    assert_eq!(
        frame_claims("\"w\"", None, "\"t\"", -7),
        r#"{"workspace":"w","project":null,"tool":"t","exp":-7}"#
    );
    assert_eq!(
        frame_claims("1", Some("2".into()), "3", 4),
        r#"{"workspace":1,"project":2,"tool":3,"exp":4}"#
    );
}

#[test]
fn opening_gives_the_payload_back() {
    let token = mint(b"k", &claims("x", 5));
    assert_eq!(
        open_token(b"k", &token),
        Some(br#"{"workspace":"ws1","project":"p1","tool":"x","exp":5}"#.to_vec())
    );
}

#[test]
fn a_changed_token_does_not_open() {
    let token = mint(b"k", &claims("x", 5));
    let (body, signature) = token.split_once('.').unwrap();
    // The signature of other claims, a cut signature, and one that is no base64.
    let other = mint(b"k", &claims("x", 6));
    let (other_body, _) = other.split_once('.').unwrap();
    assert_eq!(open_token(b"k", &format!("{other_body}.{signature}")), None);
    assert_eq!(open_token(b"k", &format!("{body}.{}", &signature[..40])), None);
    assert_eq!(open_token(b"k", &format!("{body}.{signature}=")), None);
    assert_eq!(open_token(b"k", &format!("{body}.")), None);
    assert_eq!(open_token(b"k", body), None);
    assert_eq!(open_token(b"k", ""), None);
    assert_eq!(open_token(b"k", &token).is_some(), true);
}

#[test]
fn a_payload_that_is_no_claims_is_refused() {
    let token = mint(b"k", &claims("x", 5));
    assert_eq!(verify(b"k", "x", 0, &token, |_payload| None), None);
}

#[test]
fn accept_passes_current_claims_for_the_tool() {
    assert_eq!(accept(None, "t", 0), None);
    assert_eq!(accept(Some(claims("t", 3)), "t", 3), Some(claims("t", 3)));
    assert_eq!(accept(Some(claims("t", 2)), "t", 3), None);
    assert_eq!(accept(Some(claims("T", 9)), "t", 3), None);
}
