use mbar::login_redirect::{login_outcome, parse_redirect_query, split_text, LoginOutcome, RedirectParams};

#[test]
fn split_matches_str_split() {
    for (s, sep) in [("a?b?c", '?'), ("", '&'), ("a&", '&'), ("&&", '&'), ("é=ü=", '=')] {
        let expected: Vec<String> = s.split(sep).map(|p| p.to_string()).collect();
        assert_eq!(split_text(s, sep), expected);
    }
}

#[test]
fn redirect_query_is_read() {
    let p = parse_redirect_query("/?code=abc&state=xyz");
    assert_eq!(p.code.as_deref(), Some("abc"));
    assert_eq!(p.state.as_deref(), Some("xyz"));
}

#[test]
fn later_parameters_win_and_values_stop_at_equals() {
    let p = parse_redirect_query("/?state=s1&code=c1&code=c2=tail&state=s2&junk");
    assert_eq!(p.code.as_deref(), Some("c2"));
    assert_eq!(p.state.as_deref(), Some("s2"));
}

#[test]
fn missing_query_gives_nothing() {
    let p = parse_redirect_query("/callback");
    assert_eq!(p.code, None);
    assert_eq!(p.state, None);
    // only the text between the first and second `?` is the query
    let p = parse_redirect_query("/?scope=x?code=abc");
    assert_eq!(p.code, None);
    let p = parse_redirect_query("/?code&state=");
    assert_eq!(p.code, None);
    assert_eq!(p.state.as_deref(), Some(""));
}

#[test]
fn login_checks_the_state() {
    let expected = "tok".to_string();
    let ok = login_outcome(
        RedirectParams { code: Some("c".to_string()), state: Some("tok".to_string()) },
        &expected,
    );
    assert!(matches!(ok, LoginOutcome::Exchange(ref c) if c == "c"));
    let bad = login_outcome(
        RedirectParams { code: Some("c".to_string()), state: Some("other".to_string()) },
        &expected,
    );
    assert!(matches!(bad, LoginOutcome::CsrfMismatch));
    let missing = login_outcome(RedirectParams { code: None, state: Some("tok".to_string()) }, &expected);
    assert!(matches!(missing, LoginOutcome::Incomplete));
    let missing = login_outcome(RedirectParams { code: Some("c".to_string()), state: None }, &expected);
    assert!(matches!(missing, LoginOutcome::Incomplete));
}
