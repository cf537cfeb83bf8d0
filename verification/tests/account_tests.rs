use ebay_marketing_lib::account::{
    can_mask_token, masked_token, needs_new_token, token_reply, ErrorBody, ErrorItem,
};
use ebay_marketing_lib::{
    body_has_error_1001, refresh_access_token, update_env_access_token, ApiError, Config,
};

fn errors(ids: Vec<Option<i64>>) -> Option<ErrorBody> {
    let items = ids.into_iter().map(|errorId| ErrorItem { errorId }).collect();
    Some(ErrorBody { errors: Some(items) })
}

#[test]
fn error_1001_means_the_token_is_not_accepted() {
    assert!(body_has_error_1001(&errors(vec![Some(5), Some(1001)]), ""));
    assert!(!body_has_error_1001(&errors(vec![Some(1002), None]), "Invalid access token"));
    assert!(!body_has_error_1001(&errors(vec![]), "Invalid access token"));
}

#[test]
fn words_count_where_no_errors_are_listed() {
    let unlisted = Some(ErrorBody { errors: None });
    assert!(body_has_error_1001(&unlisted, "Sorry: Invalid access token."));
    assert!(body_has_error_1001(&None, "Invalid access token"));
    assert!(!body_has_error_1001(&None, "invalid access token"));
    assert!(!body_has_error_1001(&unlisted, ""));
}

#[test]
fn new_token_is_needed_after_401_only() {
    assert!(needs_new_token(401, &errors(vec![Some(1001)]), ""));
    assert!(!needs_new_token(403, &errors(vec![Some(1001)]), ""));
    assert!(!needs_new_token(401, &errors(vec![Some(7)]), ""));
}

#[test]
fn refresh_request_names_the_grant() {
    let cfg = Config::from_env(Some("t".to_string()), Some("prod".to_string())).unwrap();
    let request = refresh_access_token(&cfg, "r-1");
    assert_eq!(request.url, "https://api.ebay.com/identity/v1/oauth2/token");
    assert_eq!(
        request.form,
        vec![
            ("grant_type".to_string(), "refresh_token".to_string()),
            ("refresh_token".to_string(), "r-1".to_string()),
        ]
    );
}

#[test]
fn token_reply_has_to_report_success() {
    assert_eq!(token_reply(200, "{}".to_string()), Ok("{}".to_string()));
    assert_eq!(
        token_reply(400, "no".to_string()),
        Err(ApiError::Http { status: 400, body: "no".to_string() })
    );
}

#[test]
fn token_line_is_replaced() {
    let content = "A=1\nEBAY_ACCESS_TOKEN=old\nB=2\n";
    assert_eq!(
        update_env_access_token(content, "new"),
        "A=1\nEBAY_ACCESS_TOKEN='new'\nB=2"
    );
}

#[test]
fn only_the_first_token_line_is_replaced() {
    let content = "EBAY_ACCESS_TOKEN=1\nEBAY_ACCESS_TOKEN=2";
    assert_eq!(
        update_env_access_token(content, "x"),
        "EBAY_ACCESS_TOKEN='x'\nEBAY_ACCESS_TOKEN=2"
    );
}

#[test]
fn settings_without_a_token_line_keep_their_lines() {
    assert_eq!(update_env_access_token("A=1\r\n# EBAY_ACCESS_TOKEN=x\r\n", "t"),
        "A=1\n# EBAY_ACCESS_TOKEN=x");
    assert_eq!(update_env_access_token("", "t"), "");
    assert_eq!(update_env_access_token("\n\n", "t"), "\n");
    assert_eq!(update_env_access_token("a\rb\r", "t"), "a\rb\r");
}

#[test]
fn last_token_counts() {
    let content = "A=1\nEBAY_ACCESS_TOKEN=old\nB=2";
    let once = update_env_access_token(content, "second");
    let twice = update_env_access_token(&update_env_access_token(content, "first"), "second");
    assert_eq!(once, twice);
}

#[test]
fn settings_read_back_with_the_token() {
    let content = "A=1\nEBAY_ACCESS_TOKEN=old\nB=2";
    let updated = update_env_access_token(content, "new");
    let lines: Vec<&str> = updated.lines().collect();
    assert_eq!(lines, vec!["A=1", "EBAY_ACCESS_TOKEN='new'", "B=2"]);
}

#[test]
fn tokens_are_masked() {
    assert_eq!(masked_token("12345678901234567890"), "12345678901234567890");
    assert_eq!(masked_token("1234567890abc0987654321"), "1234567890...0987654321");
    assert_eq!(masked_token(""), "");
    assert!(can_mask_token("123456789é---------"));
    assert!(!can_mask_token("123456789é----------"));
    assert!(can_mask_token("1234567890é-----------"));
}
