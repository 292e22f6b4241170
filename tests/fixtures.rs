use tests_lib::fixtures::{
    err_template, next_step_location, parse_u8, redirect_reply, secret_location, sign_token,
    GuardError, HeaderCapitalizer, RedirectGuard, RedirectReply, TokenState,
};

#[test]
fn error_page_for_not_found() {
    let page = err_template(404);
    assert!(page.starts_with("<!DOCTYPE html>"));
    assert!(page.contains("<title>Error 404 Not Found</title>"));
    assert!(page.contains("<h1>Error 404 Not Found</h1>"));
    assert!(page.contains("<p>The page you are looking for does not exist.</p>"));
    assert!(page.ends_with("</html>"));
}

#[test]
fn unknown_codes_get_the_server_error_page() {
    assert_eq!(err_template(418), err_template(500));
    assert!(err_template(401).contains("<p>You are not authorized to view this page.</p>"));
    assert!(err_template(400).contains("<h1>Error 400 Bad Request</h1>"));
}

#[test]
fn token_is_the_hex_hmac_of_the_time() {
    assert_eq!(
        sign_token(b"key", 0),
        "795a1e8c9d7dd97eab49ff7abbd8bf08aa85f84b2023ece5df68252a385cec3d"
    );
    assert_eq!(
        sign_token(b"", 1700000000),
        "2cdabba9239f1ef50389ace9e5a714a961812fe6122dc0a23dcdff5a1a82551c"
    );
}

#[test]
fn issued_token_is_admitted() {
    let mut state = TokenState::new();
    let token = state.issue(b"secret".to_vec(), 42);
    assert!(state.admits(&token));
    assert!(!state.admits("0000"));
    let fresh = state.renew(43);
    assert_eq!(fresh.len(), 64);
    assert!(state.admits(&fresh));
    assert!(!state.admits(&token));
}

#[test]
fn steps_parse_as_u8() {
    assert_eq!(parse_u8("7"), Some(7));
    assert_eq!(parse_u8("+7"), Some(7));
    assert_eq!(parse_u8("007"), Some(7));
    assert_eq!(parse_u8("255"), Some(255));
    assert_eq!(parse_u8("256"), None);
    assert_eq!(parse_u8("99999999999999999999"), None);
    assert_eq!(parse_u8(""), None);
    assert_eq!(parse_u8("+"), None);
    assert_eq!(parse_u8("-1"), None);
    assert_eq!(parse_u8("1a"), None);
}

#[test]
fn redirect_chain_replies() {
    assert_eq!(redirect_reply("1"), RedirectReply::IssueToken);
    assert_eq!(redirect_reply("3"), RedirectReply::Next(2));
    assert_eq!(redirect_reply("254"), RedirectReply::Next(253));
    assert_eq!(redirect_reply("255"), RedirectReply::BadRequest);
    assert_eq!(redirect_reply("0"), RedirectReply::BadRequest);
    assert_eq!(redirect_reply("abc"), RedirectReply::BadRequest);
    assert_eq!(next_step_location(2), "/recursive/2");
    assert_eq!(next_step_location(253), "/recursive/253");
    assert_eq!(secret_location("ab12"), "/secret?token=ab12");
}

#[test]
fn guard_checks_the_single_query_value() {
    assert!(RedirectGuard::from_query(Some("token=abc"), "abc").is_ok());
    assert_eq!(RedirectGuard::from_query(Some("token=abd"), "abc").err(), Some(GuardError::Unauthorized));
    assert_eq!(RedirectGuard::from_query(None, "abc").err(), Some(GuardError::BadRequest));
    assert_eq!(RedirectGuard::from_query(Some("a=b=c"), "b=c").err(), Some(GuardError::BadRequest));
    assert_eq!(RedirectGuard::from_query(Some("token"), "token").err(), Some(GuardError::BadRequest));
    assert!(RedirectGuard::from_query(Some("token="), "").is_ok());
}

#[test]
fn header_names_are_capitalised() {
    let headers = vec![
        ("content-type".to_string(), "text/html".to_string()),
        ("ßeta".to_string(), "1".to_string()),
        ("".to_string(), "x".to_string()),
    ];
    let out = HeaderCapitalizer.on_response(&headers);
    assert_eq!(
        out,
        vec![
            ("Content-type".to_string(), "text/html".to_string()),
            ("SSeta".to_string(), "1".to_string()),
            ("".to_string(), "x".to_string()),
            ("Test".to_string(), "Hello".to_string()),
        ]
    );
}
