use custom_tools::github::{first_wait, json_num, json_str, parse_device_code, poll_outcome, PollOutcome};
use custom_tools::postgres::{escape_single_quotes, password_sql, post_install_sql};
use custom_tools::tool::Tool;

const DEVICE_REPLY: &str = r#"{"device_code":"3584d83530557fdd1f46af8289938c8ef79f9dc5","user_code":"WDJB-MJHT","verification_uri":"https://github.com/login/device","expires_in":899,"interval":5}"#;

#[test]
fn json_str_reads_string_fields() {
    assert_eq!(json_str(DEVICE_REPLY, "user_code"), Some("WDJB-MJHT".to_string()));
    assert_eq!(
        json_str(DEVICE_REPLY, "verification_uri"),
        Some("https://github.com/login/device".to_string())
    );
}

#[test]
fn json_str_allows_spaces_after_colon() {
    assert_eq!(json_str("{\"error\" :  \"slow_down\"}", "error"), Some("slow_down".to_string()));
    assert_eq!(json_str("{\"k\":\n\t\"v\"}", "k"), Some("v".to_string()));
}

#[test]
fn json_str_missing_or_not_a_string() {
    assert_eq!(json_str(DEVICE_REPLY, "access_token"), None);
    assert_eq!(json_str(DEVICE_REPLY, "interval"), None);
    assert_eq!(json_str("{\"k\":\"unterminated}", "k"), None);
    assert_eq!(json_str("{\"k\"}", "k"), None);
}

#[test]
fn json_str_empty_value() {
    assert_eq!(json_str("{\"k\":\"\"}", "k"), Some(String::new()));
}

#[test]
fn json_str_uses_first_occurrence_of_key_text() {
    // The key text is searched anywhere, values included.
    assert_eq!(json_str("{\"x\":\"b\"}", "b"), None);
    assert_eq!(json_str("{\"x\":\"b\", \"y\":\"c\"}", "b"), Some("c".to_string()));
    assert_eq!(json_str("{\"a\":\"b\",\"a\":\"c\"}", "a"), Some("b".to_string()));
}

#[test]
fn json_num_reads_leading_digits() {
    assert_eq!(json_num(DEVICE_REPLY, "interval"), Some(5));
    assert_eq!(json_num(DEVICE_REPLY, "expires_in"), Some(899));
    assert_eq!(json_num("{\"n\": 42abc}", "n"), Some(42));
}

#[test]
fn json_num_rejects_non_numbers_and_overflow() {
    assert_eq!(json_num(DEVICE_REPLY, "user_code"), None);
    assert_eq!(json_num("{\"n\":-1}", "n"), None);
    assert_eq!(json_num("{\"n\":18446744073709551615}", "n"), Some(u64::MAX));
    assert_eq!(json_num("{\"n\":18446744073709551616}", "n"), None);
    assert_eq!(json_num("{}", "n"), None);
}

#[test]
fn device_code_parsed() {
    let d = parse_device_code(DEVICE_REPLY).ok().unwrap();
    assert_eq!(d.device_code, "3584d83530557fdd1f46af8289938c8ef79f9dc5");
    assert_eq!(d.user_code, "WDJB-MJHT");
    assert_eq!(d.verification_uri, "https://github.com/login/device");
    assert_eq!(d.interval, 5);
    assert_eq!(d.expires_in, 899);
}

#[test]
fn device_code_defaults() {
    let d = parse_device_code("{\"device_code\":\"d\",\"user_code\":\"u\",\"verification_uri\":\"v\"}")
        .ok()
        .unwrap();
    assert_eq!(d.interval, 5);
    assert_eq!(d.expires_in, 900);
}

#[test]
fn device_code_missing_fields() {
    assert_eq!(parse_device_code("{}").err(), Some("missing device_code".to_string()));
    assert_eq!(
        parse_device_code("{\"device_code\":\"d\"}").err(),
        Some("missing user_code".to_string())
    );
    assert_eq!(
        parse_device_code("{\"device_code\":\"d\",\"user_code\":\"u\"}").err(),
        Some("missing verification_uri".to_string())
    );
}

fn outcome(json: &str, wait: u64) -> String {
    match poll_outcome(json, wait) {
        PollOutcome::Token(t) => format!("token {t}"),
        PollOutcome::Wait(n) => format!("wait {n}"),
        PollOutcome::Fail(m) => format!("fail {m}"),
    }
}

#[test]
fn poll_outcomes() {
    assert_eq!(outcome("{\"access_token\":\"gho_abc\",\"token_type\":\"bearer\"}", 5), "token gho_abc");
    assert_eq!(outcome("{\"error\":\"authorization_pending\"}", 5), "wait 5");
    assert_eq!(outcome("{\"error\":\"slow_down\"}", 5), "wait 10");
    assert_eq!(outcome("{\"error\":\"expired_token\"}", 5), "fail device code expired");
    assert_eq!(outcome("{\"error\":\"access_denied\"}", 5), "fail authorization denied");
    assert_eq!(outcome("{\"error\":\"bad_verification_code\"}", 5), "fail oauth error: bad_verification_code");
    assert_eq!(outcome("  <html>oops</html>\n", 5), "fail unexpected response: <html>oops</html>");
}

#[test]
fn token_wins_over_error() {
    assert_eq!(outcome("{\"error\":\"slow_down\",\"access_token\":\"t\"}", 7), "token t");
}

#[test]
fn first_wait_is_at_least_one_second() {
    assert_eq!(first_wait(0), 1);
    assert_eq!(first_wait(1), 1);
    assert_eq!(first_wait(5), 5);
}

#[test]
fn password_statement() {
    assert_eq!(password_sql("secret"), "ALTER USER postgres WITH PASSWORD 'secret';");
    assert_eq!(password_sql("it's"), "ALTER USER postgres WITH PASSWORD 'it''s';");
    assert_eq!(password_sql(""), "ALTER USER postgres WITH PASSWORD '';");
}

#[test]
fn quote_escaping() {
    assert_eq!(escape_single_quotes("''"), "''''");
    assert_eq!(escape_single_quotes("ñ'ü"), "ñ''ü");
}

#[test]
fn post_install_statement_only_for_postgres() {
    assert_eq!(
        post_install_sql(Tool::Postgres, "pw"),
        Some("ALTER USER postgres WITH PASSWORD 'pw';".to_string())
    );
    assert_eq!(post_install_sql(Tool::Fish, "pw"), None);
}
