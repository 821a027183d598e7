use quotadock::startup::{first_command_token, startup_command};

#[test]
fn extracts_quoted_command_path() {
    assert_eq!(
        first_command_token(r#""C:\Program Files\QuotaDock\quotadock.exe" --startup"#),
        Some(r"C:\Program Files\QuotaDock\quotadock.exe".to_string())
    );
}

#[test]
fn extracts_unquoted_command_path() {
    assert_eq!(
        first_command_token(r"C:\Tools\quotadock.exe --startup"),
        Some(r"C:\Tools\quotadock.exe".to_string())
    );
}

#[test]
fn startup_command_round_trips_through_the_first_token() {
    let command = startup_command(r"C:\Program Files\QuotaDock\quotadock.exe");
    assert_eq!(
        first_command_token(&command),
        Some(r"C:\Program Files\QuotaDock\quotadock.exe".to_string())
    );
}
