use command_master::credentials::{accept_secret, credential_entry, get_env_value};

#[test]
fn save_the_command_should_pass() {}

#[test]
fn stored_key_is_found_without_prompt() {
    assert_eq!(get_env_value(b"OPENAI_API_KEY=abc123", b"OPENAI_API_KEY"), b"abc123".to_vec());
}

#[test]
fn blank_key_reads_as_absent_and_new_line_is_appended() {
    let content = b"OPENAI_API_KEY=".to_vec();
    assert!(get_env_value(&content, b"OPENAI_API_KEY").is_empty());
    let typed = accept_secret(b"  newkey\n").unwrap();
    assert_eq!(typed, b"newkey".to_vec());
    let appended = credential_entry(&content, b"OPENAI_API_KEY", &typed);
    assert_eq!(appended, b"\nOPENAI_API_KEY=newkey\n".to_vec());
    let mut file = content.clone();
    file.extend_from_slice(&appended);
    assert_eq!(file, b"OPENAI_API_KEY=\nOPENAI_API_KEY=newkey\n".to_vec());
}

#[test]
fn missing_key_reads_as_empty() {
    assert!(get_env_value(b"", b"ADMIN_SECRET_KEY").is_empty());
    assert!(get_env_value(b"OTHER=1\nMORE=2\n", b"ADMIN_SECRET_KEY").is_empty());
}

#[test]
fn value_is_trimmed_and_found_on_later_line() {
    let content = b"OPENAI_API_KEY=sk-1\r\nADMIN_SECRET_KEY=  admin-9 \r\n";
    assert_eq!(get_env_value(content, b"ADMIN_SECRET_KEY"), b"admin-9".to_vec());
    assert_eq!(get_env_value(content, b"OPENAI_API_KEY"), b"sk-1".to_vec());
}

#[test]
fn key_must_start_the_line() {
    assert!(get_env_value(b"XOPENAI_API_KEY=zzz", b"OPENAI_API_KEY").is_empty());
}

#[test]
fn first_matching_line_decides() {
    assert!(get_env_value(b"K=\nK=later\n", b"K").is_empty());
    assert_eq!(get_env_value(b"K=first\nK=later\n", b"K"), b"first".to_vec());
}

#[test]
fn blank_input_is_refused() {
    assert_eq!(accept_secret(b""), None);
    assert_eq!(accept_secret(b" \t\r\n"), None);
}

#[test]
fn entry_after_complete_line_needs_no_separator() {
    assert_eq!(credential_entry(b"A=1\n", b"B", b"2"), b"B=2\n".to_vec());
    assert_eq!(credential_entry(b"", b"B", b"2"), b"B=2\n".to_vec());
}

#[test]
fn appended_entry_is_found_by_later_lookup() {
    let mut file = b"OTHER=1".to_vec();
    assert!(get_env_value(&file, b"OPENAI_API_KEY").is_empty());
    let entry = credential_entry(&file, b"OPENAI_API_KEY", b"sk-42");
    assert_eq!(entry, b"\nOPENAI_API_KEY=sk-42\n".to_vec());
    file.extend_from_slice(&entry);
    assert_eq!(get_env_value(&file, b"OPENAI_API_KEY"), b"sk-42".to_vec());
    assert_eq!(get_env_value(&file, b"OTHER"), b"1".to_vec());
}
