use matrix_send::error::Error;
use matrix_send::room::{
    attachment_mime, attachment_name, compose, fenced, message_kind, room_listed, Membership,
    MessageKind, RoomFilter,
};

#[test]
fn code_block_with_language() {
    assert_eq!(fenced("let x = 1;", Some("rust")), "```rust\nlet x = 1;\n```");
}

#[test]
fn code_block_keeps_final_line_break() {
    assert_eq!(fenced("a\n", None), "```\na\n```");
    assert_eq!(fenced("", None), "```\n```");
}

#[test]
fn compose_code_is_markdown() {
    assert_eq!(compose("x".to_string(), Some(None), false), ("```\nx\n```".to_string(), true));
    assert_eq!(
        compose("x".to_string(), Some(Some("sh".to_string())), false),
        ("```sh\nx\n```".to_string(), true)
    );
    assert_eq!(compose("*x*".to_string(), None, true), ("*x*".to_string(), true));
    assert_eq!(compose("*x*".to_string(), None, false), ("*x*".to_string(), false));
}

#[test]
fn notice_wins_over_emote() {
    assert_eq!(message_kind(true, true), MessageKind::Notice);
    assert_eq!(message_kind(false, true), MessageKind::Emote);
    assert_eq!(message_kind(false, false), MessageKind::Text);
}

#[test]
fn rooms_are_filtered_by_membership() {
    let joined = vec![RoomFilter::Joined];
    assert!(room_listed(&joined, Membership::Joined));
    assert!(!room_listed(&joined, Membership::Left));
    assert!(room_listed(&vec![RoomFilter::All], Membership::Invited));
    assert!(room_listed(&vec![RoomFilter::Left, RoomFilter::Invited], Membership::Invited));
    assert!(!room_listed(&vec![], Membership::Joined));
}

#[test]
fn attachment_type_is_guessed_from_extension() {
    assert_eq!(attachment_mime(None, "photo.png"), "image/png");
    assert_eq!(attachment_mime(None, "notes.unknownext"), "application/octet-stream");
    assert_eq!(attachment_mime(Some("text/plain".to_string()), "photo.png"), "text/plain");
}

#[test]
fn attachment_name_defaults_to_file_name() {
    assert_eq!(attachment_name(None, "/tmp/dir/report.pdf"), Ok("report.pdf".to_string()));
    assert_eq!(attachment_name(Some("Report".to_string()), "/tmp/r.pdf"), Ok("Report".to_string()));
    assert_eq!(attachment_name(None, "/tmp/.."), Err(Error::InvalidFile));
}
