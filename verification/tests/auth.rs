use ctrader_bot::auth::{
    authenticate, begin_auth, persist_rotated_tokens, replace_env_key, AuthError, AuthForm,
    AuthMessage, AuthPayload, AuthPhase,
};
use ctrader_bot::config::Config;
use ctrader_bot::proto::{
    ErrorRes, RefreshTokenRes, Request, ERROR_RES, OA_ACCOUNT_AUTH_RES, OA_APPLICATION_AUTH_RES,
    OA_ERROR_RES, OA_REFRESH_TOKEN_RES,
};

fn config(refresh_token: Option<&str>) -> Config {
    Config {
        client_id: "id".to_string(),
        client_secret: "secret".to_string(),
        access_token: "old".to_string(),
        refresh_token: refresh_token.map(|t| t.to_string()),
        account_id: 42,
        host: "h".to_string(),
        port: 1,
        api_addr: "a".to_string(),
        subscribe_symbols: Vec::new(),
    }
}

fn plain(payload_type: u32) -> AuthMessage {
    AuthMessage { payload_type, payload: AuthPayload::Unread }
}

fn error(payload_type: u32, code: &str, description: Option<&str>) -> AuthMessage {
    AuthMessage {
        payload_type,
        payload: AuthPayload::Error(ErrorRes {
            error_code: code.to_string(),
            description: description.map(|d| d.to_string()),
        }),
    }
}

fn tokens(access_token: &str, refresh_token: &str) -> AuthMessage {
    AuthMessage {
        payload_type: OA_REFRESH_TOKEN_RES,
        payload: AuthPayload::Tokens(RefreshTokenRes {
            access_token: access_token.to_string(),
            refresh_token: refresh_token.to_string(),
            expires_in: 3600,
        }),
    }
}

#[test]
fn replaces_existing_key_preserving_other_lines_and_trailing_newline() {
    let original = "\
# comment
CTRADER_CLIENT_ID=abc
CTRADER_ACCESS_TOKEN=old_token
CTRADER_ACCOUNT_ID=1234
";
    let updated = replace_env_key(original, "CTRADER_ACCESS_TOKEN", "new_token");
    assert_eq!(
        updated,
        "\
# comment
CTRADER_CLIENT_ID=abc
CTRADER_ACCESS_TOKEN=new_token
CTRADER_ACCOUNT_ID=1234
"
    );
}

#[test]
fn appends_key_when_missing() {
    let original = "FOO=bar\n";
    let updated = replace_env_key(original, "CTRADER_REFRESH_TOKEN", "rt");
    assert_eq!(updated, "FOO=bar\nCTRADER_REFRESH_TOKEN=rt\n");
}

#[test]
fn skips_commented_out_lines() {
    let original = "# CTRADER_REFRESH_TOKEN=oldcomment\nFOO=bar\n";
    let updated = replace_env_key(original, "CTRADER_REFRESH_TOKEN", "rt");
    assert_eq!(
        updated,
        "# CTRADER_REFRESH_TOKEN=oldcomment\nFOO=bar\nCTRADER_REFRESH_TOKEN=rt\n"
    );
}

#[test]
fn preserves_absence_of_trailing_newline() {
    let original = "FOO=bar";
    let updated = replace_env_key(original, "BAZ", "qux");
    assert_eq!(updated, "FOO=bar\nBAZ=qux");
}

#[test]
fn does_not_match_key_as_substring_of_another() {
    let original = "CTRADER_ACCESS_TOKEN_BACKUP=keep\n";
    let updated = replace_env_key(original, "CTRADER_ACCESS_TOKEN", "new");
    assert_eq!(
        updated,
        "CTRADER_ACCESS_TOKEN_BACKUP=keep\nCTRADER_ACCESS_TOKEN=new\n"
    );
}

#[test]
fn edges_of_the_environment_file() {
    assert_eq!(replace_env_key("", "K", "v"), "K=v");
    assert_eq!(replace_env_key("\n", "K", "v"), "\nK=v\n");
    assert_eq!(replace_env_key("#K=1\n", "K", "v"), "#K=1\nK=v\n");
    assert_eq!(replace_env_key("  K=1", "K", "v"), "K=v");
    assert_eq!(replace_env_key("K=1\r", "K", "v"), "K=v");
}

#[test]
fn line_endings_are_kept() {
    assert_eq!(
        replace_env_key("# note\r\n\r\nA=1\r\n", "A", "2"),
        "# note\r\n\r\nA=2\r\n"
    );
    assert_eq!(
        replace_env_key("a\r\n\r\n  K=1\r\nK=2", "K", "v"),
        "a\r\n\r\nK=v\r\nK=v"
    );
    assert_eq!(replace_env_key("a\r\r\n", "K", "v"), "a\r\r\nK=v\n");
    assert_eq!(replace_env_key("B=1\r\n# x\nK=1\n", "K", "v"), "B=1\r\n# x\nK=v\n");
}

#[test]
fn the_last_value_wins() {
    for content in ["", "A=1\n\n# K=0\n K=1\n", "A=1\r\nK=1\r\n", "A=1\r", "\n\n"] {
        let once = replace_env_key(content, "K", "v");
        assert_eq!(replace_env_key(&once, "K", "v"), once);
        assert_eq!(replace_env_key(&once, "K", "w"), replace_env_key(content, "K", "w"));
    }
}

#[test]
fn rotated_tokens_are_written_once() {
    let mut c = config(Some("new_refresh"));
    c.access_token = "new_access".to_string();
    let content = "CTRADER_REFRESH_TOKEN=x\nFOO=1\nCTRADER_ACCESS_TOKEN=y\n";
    let written = persist_rotated_tokens(&c, content).unwrap();
    assert_eq!(
        written,
        "CTRADER_REFRESH_TOKEN=new_refresh\nFOO=1\nCTRADER_ACCESS_TOKEN=new_access\n"
    );
    assert_eq!(persist_rotated_tokens(&c, &written), None);
}

#[test]
fn without_a_refresh_token_only_the_access_token_is_written() {
    let c = config(None);
    assert_eq!(
        persist_rotated_tokens(&c, "CTRADER_REFRESH_TOKEN=x\n"),
        Some("CTRADER_REFRESH_TOKEN=x\nCTRADER_ACCESS_TOKEN=old\n".to_string())
    );
}

fn refresh() -> AuthPhase {
    AuthPhase::Refresh { refusal: "first".to_string() }
}

#[test]
fn two_steps_sign_in() {
    let mut c = config(None);
    let (phase, first) = begin_auth(&c);
    assert!(matches!(phase, AuthPhase::Application));
    assert!(matches!(
        &first,
        Request::ApplicationAuth { client_id, client_secret }
            if client_id == "id" && client_secret == "secret"
    ));
    let step = authenticate(&mut c, phase, &plain(OA_APPLICATION_AUTH_RES));
    assert!(matches!(step.next, Ok(AuthPhase::Account)));
    assert!(matches!(
        step.send,
        Some(Request::AccountAuth { account_id: 42, access_token }) if access_token == "old"
    ));
    assert!(!step.rotated);
    let step = authenticate(&mut c, AuthPhase::Account, &plain(OA_ACCOUNT_AUTH_RES));
    assert!(step.next.unwrap().is_done());
    assert!(step.send.is_none());
}

#[test]
fn expired_token_is_renewed_once() {
    let mut c = config(Some("rt"));
    let expired = |d: &str| error(OA_ERROR_RES, "CH_ACCESS_TOKEN_INVALID", Some(d));
    let step = authenticate(&mut c, AuthPhase::Account, &expired("d1"));
    let phase = step.next.unwrap();
    assert!(matches!(&phase, AuthPhase::Refresh { refusal } if refusal == "d1"));
    assert!(matches!(
        step.send,
        Some(Request::RefreshToken { refresh_token }) if refresh_token == "rt"
    ));
    let step = authenticate(&mut c, phase, &tokens("new", "rt2"));
    let phase = step.next.unwrap();
    assert!(matches!(&phase, AuthPhase::Retry { refusal } if refusal == "d1"));
    assert!(matches!(
        step.send,
        Some(Request::AccountAuth { account_id: 42, access_token }) if access_token == "new"
    ));
    assert!(step.rotated);
    assert_eq!(c.access_token, "new");
    assert_eq!(c.refresh_token, Some("rt2".to_string()));
    let step = authenticate(&mut c, phase, &expired("d2"));
    assert!(step.send.is_none());
    assert!(matches!(
        step.next,
        Err(AuthError::AccessTokenInvalidAfterRefresh { description }) if description == "d1"
    ));
    let retry = AuthPhase::Retry { refusal: "d1".to_string() };
    let step = authenticate(&mut c, retry, &plain(OA_ACCOUNT_AUTH_RES));
    assert!(step.next.unwrap().is_done());
}

#[test]
fn expired_token_without_refresh_token_fails() {
    let mut c = config(None);
    let expired = error(OA_ERROR_RES, "CH_ACCESS_TOKEN_INVALID", None);
    let step = authenticate(&mut c, AuthPhase::Account, &expired);
    assert!(matches!(
        step.next,
        Err(AuthError::AccessTokenInvalid { description }) if description.is_empty()
    ));
    assert!(step.send.is_none());
    assert_eq!(c.access_token, "old");
}

#[test]
fn each_error_of_signing_in() {
    let mut c = config(Some("rt"));
    let step = authenticate(&mut c, AuthPhase::Application, &error(ERROR_RES, "E1", Some("d")));
    assert!(matches!(
        step.next,
        Err(AuthError::Server { error_code, description })
            if error_code == "E1" && description == "d"
    ));
    let missing = |payload_type: u32| AuthMessage { payload_type, payload: AuthPayload::Missing };
    let step = authenticate(&mut c, AuthPhase::Application, &missing(ERROR_RES));
    assert!(matches!(step.next, Err(AuthError::ServerWithoutPayload)));
    let step = authenticate(&mut c, refresh(), &error(OA_ERROR_RES, "E2", None));
    assert!(matches!(
        step.next,
        Err(AuthError::OpenApi { error_code, description })
            if error_code == "E2" && description.is_empty()
    ));
    let step = authenticate(&mut c, AuthPhase::Account, &missing(OA_ERROR_RES));
    assert!(matches!(step.next, Err(AuthError::OpenApiWithoutPayload)));
    let step = authenticate(&mut c, AuthPhase::Account, &error(OA_ERROR_RES, "E3", Some("x")));
    assert!(matches!(
        step.next,
        Err(AuthError::OpenApi { error_code, description })
            if error_code == "E3" && description == "x"
    ));
    let step = authenticate(&mut c, AuthPhase::Application, &plain(51));
    assert!(matches!(
        step.next,
        Err(AuthError::Unexpected { awaited: 2101, payload_type: 51 })
    ));
    let step = authenticate(&mut c, AuthPhase::Account, &plain(50));
    assert!(matches!(
        step.next,
        Err(AuthError::Unexpected { awaited: 2103, payload_type: 50 })
    ));
    let step = authenticate(&mut c, refresh(), &plain(2103));
    assert!(matches!(
        step.next,
        Err(AuthError::Unexpected { awaited: 2174, payload_type: 2103 })
    ));
}

#[test]
fn refresh_without_payload_reads_as_empty_tokens() {
    let mut c = config(Some("rt"));
    let empty = AuthMessage { payload_type: OA_REFRESH_TOKEN_RES, payload: AuthPayload::Missing };
    let step = authenticate(&mut c, refresh(), &empty);
    assert!(matches!(step.next, Ok(AuthPhase::Retry { .. })));
    assert_eq!(c.access_token, "");
    assert_eq!(c.refresh_token, Some(String::new()));
}

#[test]
fn payloads_are_decoded_by_auth_phase() {
    assert_eq!(AuthPhase::Application.payload_form(ERROR_RES), AuthForm::Error);
    assert_eq!(AuthPhase::Account.payload_form(ERROR_RES), AuthForm::Nothing);
    assert_eq!(AuthPhase::Retry { refusal: String::new() }.payload_form(OA_ERROR_RES), AuthForm::Error);
    assert_eq!(refresh().payload_form(OA_REFRESH_TOKEN_RES), AuthForm::Tokens);
    assert_eq!(AuthPhase::Account.payload_form(OA_REFRESH_TOKEN_RES), AuthForm::Nothing);
}
