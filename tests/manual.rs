use command_master::manual::{extract_section, get_command_manual, placeholder_text, section_content};

const LS_MANUAL: &str = "\nNAME\nls - list directory contents\r\n\r\n\nSYNOPSIS\nls [OPTION]...\r\n\r\n";

#[test]
fn digest_of_ls_keeps_sections_in_order() {
    let digest = get_command_manual(b"ls", Some(LS_MANUAL.as_bytes()));
    assert_eq!(
        digest,
        b"NAME: ls - list directory contents\r\n\r\nSYNOPSIS: ls [OPTION]...\r\n\r\n".to_vec()
    );
}

#[test]
fn text_without_labels_gives_placeholder() {
    let digest = get_command_manual(b"foo", Some(b"nothing to see here\r\n\r\nat all"));
    assert_eq!(digest, b"No manual found for command foo.".to_vec());
}

#[test]
fn failed_tool_gives_placeholder() {
    let digest = get_command_manual(b"bar", None);
    assert_eq!(digest, b"No manual found for command bar.".to_vec());
    assert_eq!(placeholder_text(b"bar"), digest);
}

#[test]
fn empty_output_gives_placeholder() {
    let digest = get_command_manual(b"baz", Some(b""));
    assert_eq!(digest, b"No manual found for command baz.".to_vec());
}

#[test]
fn long_description_is_cut_to_limit_bytes() {
    // one ASCII byte, then two-byte characters: byte 300 falls inside one
    let mut body = String::from("x");
    for _ in 0..200 {
        body.push('é');
    }
    let text = format!("\nDESCRIPTION\n{body}");
    let digest = get_command_manual(b"cmd", Some(text.as_bytes()));
    let prefix = b"DESCRIPTION: ";
    assert_eq!(&digest[..prefix.len()], prefix);
    let fragment = &digest[prefix.len()..];
    assert_eq!(fragment.len(), 300);
    assert_eq!(fragment, &body.as_bytes()[..300]);
    assert!(std::str::from_utf8(fragment).is_err());
}

#[test]
fn description_of_exactly_limit_bytes_is_kept() {
    let body = "d".repeat(300);
    let text = format!("\nDESCRIPTION\n{body}");
    let digest = get_command_manual(b"cmd", Some(text.as_bytes()));
    assert_eq!(digest, format!("DESCRIPTION: {body}").into_bytes());
}

#[test]
fn short_description_is_kept_verbatim() {
    let text = "\nDESCRIPTION\nList information about the FILEs.\r\n\r\nmore text";
    let digest = get_command_manual(b"ls", Some(text.as_bytes()));
    assert_eq!(
        digest,
        b"DESCRIPTION: List information about the FILEs.\r\n\r\n".to_vec()
    );
}

#[test]
fn all_three_sections_are_concatenated() {
    let text = "header\nDESCRIPTION\ndesc\r\n\r\n\nNAME\nname\r\n\r\n\nSYNOPSIS\nsyn";
    let digest = get_command_manual(b"x", Some(text.as_bytes()));
    assert_eq!(
        digest,
        b"NAME: name\r\n\r\nSYNOPSIS: synDESCRIPTION: desc\r\n\r\n".to_vec()
    );
}

#[test]
fn section_without_break_runs_to_end() {
    let text = b"\nNAME\nonly unix newlines\nhere\n\nand more";
    assert_eq!(
        extract_section(text, b"NAME"),
        Some(b"NAME: only unix newlines\nhere\n\nand more".to_vec())
    );
}

#[test]
fn label_must_start_a_line() {
    assert_eq!(extract_section(b"NAME\nfoo", b"NAME"), None);
    assert_eq!(extract_section(b"xNAME\nfoo", b"NAME"), None);
    assert_eq!(section_content(b"a\nNAME", b"NAME"), Some(Vec::new()));
}

#[test]
fn first_occurrence_of_label_is_used() {
    let text = b"\nNAME\nfirst\r\n\r\n\nNAME\nsecond";
    assert_eq!(extract_section(text, b"NAME"), Some(b"NAME: first\r\n\r\n".to_vec()));
}

#[test]
fn label_without_line_break_after_it() {
    let text = b"\nNAME ls\r\n\r\n";
    assert_eq!(section_content(text, b"NAME"), Some(b" ls\r\n\r\n".to_vec()));
}
