use chat_relay::settings::{lookup_setting, parse_line, settings_file};

const DEFAULT_FILE: &str = "HISTORY_LIMIT=30\nCHANNEL_CAPACITY=50\n\nJWT_SECRET=jwt_secret_here\nJWT_SECRET_REFRESH=jwt_refresh_secret_here\n\nBACKEND_URL=http://localhost:8080\nFRONTEND_URL=http://localhost:4329\nDATABASE_URL=sqlite:imphnen.db\n\nDISCORD_GUILD_ID=1234567891234567890\nDISCORD_CLIENT_ID=1234567891234567890\nDISCORD_CLIENT_SECRET=discord_secret_here\nDISCORD_REDIRECT_URL=http://localhost:8080/api/auth/discord/authorized";

fn lines(v: &[&str]) -> Vec<String> {
    v.iter().map(|s| s.to_string()).collect()
}

#[test]
fn settings_file_from_nothing_is_all_defaults() {
    assert_eq!(settings_file(&Vec::new()), DEFAULT_FILE);
}

#[test]
fn settings_file_keeps_existing_values() {
    let out = settings_file(&lines(&[" HISTORY_LIMIT = 5 ", "junk line", "JWT_SECRET=s3cr3t", "UNKNOWN=1"]));
    let expected = DEFAULT_FILE
        .replace("HISTORY_LIMIT=30", "HISTORY_LIMIT=5")
        .replace("JWT_SECRET=jwt_secret_here", "JWT_SECRET=s3cr3t");
    assert_eq!(out, expected);
    assert!(!out.contains("UNKNOWN"));
}

#[test]
fn settings_last_line_wins_and_value_keeps_equals() {
    let ls = lines(&["DATABASE_URL=a", "DATABASE_URL = sqlite:x?mode=rwc "]);
    assert_eq!(lookup_setting(&ls, "DATABASE_URL"), Some("sqlite:x?mode=rwc".to_string()));
    assert_eq!(lookup_setting(&ls, "BACKEND_URL"), None);
}

#[test]
fn parse_line_splits_at_first_equals() {
    assert_eq!(parse_line(" a = b=c "), Some(("a".to_string(), "b=c".to_string())));
    assert_eq!(parse_line("no equals"), None);
    assert_eq!(parse_line("="), Some((String::new(), String::new())));
}
