use mdk_cli::engine::KnownGroup;
use mdk_cli::groups::{find_group, list_groups, parse_group_id, send_output, SendError};
use mdk_cli::output::Output;

fn group(id: u8, name: &str) -> KnownGroup {
    KnownGroup { mls_group_id: vec![id, 1], nostr_group_id: [id; 32], name: name.to_string() }
}

#[test]
fn groups_are_listed_with_hex_identifier_and_name() {
    let output = list_groups(&vec![group(0x01, "one"), group(0xfe, "two")]);
    assert_eq!(output.count, 2);
    assert_eq!(output.groups.len(), 2);
    assert_eq!(output.groups[0].nostr_group_id, "01".repeat(32));
    assert_eq!(output.groups[0].name, "one");
    assert_eq!(output.groups[1].nostr_group_id, "fe".repeat(32));
    assert_eq!(output.groups[1].name, "two");
    let none = list_groups(&Vec::new());
    assert_eq!(none.count, 0);
    assert!(none.groups.is_empty());
}

#[test]
fn group_identifier_must_be_hex_of_32_bytes() {
    assert_eq!(parse_group_id(&"ab".repeat(32)).ok(), Some([0xab; 32]));
    assert_eq!(parse_group_id(&"AB".repeat(32)).ok(), Some([0xab; 32]));
    assert!(matches!(parse_group_id("xyz"), Err(SendError::InvalidGroupId)));
    assert!(matches!(parse_group_id("abc"), Err(SendError::InvalidGroupId)));
    assert!(matches!(parse_group_id(&"zz".repeat(32)), Err(SendError::InvalidGroupId)));
    assert!(matches!(parse_group_id(""), Err(SendError::WrongLength)));
    assert!(matches!(parse_group_id("abcd"), Err(SendError::WrongLength)));
    assert!(matches!(parse_group_id(&"ab".repeat(31)), Err(SendError::WrongLength)));
    assert!(matches!(parse_group_id(&"ab".repeat(33)), Err(SendError::WrongLength)));
}

#[test]
fn group_is_found_by_its_transport_identifier() {
    let groups = vec![group(1, "one"), group(2, "two"), group(2, "two again"), group(3, "three")];
    assert_eq!(find_group(&groups, &[1; 32]), Some(0));
    assert_eq!(find_group(&groups, &[2; 32]), Some(1));
    assert_eq!(find_group(&groups, &[3; 32]), Some(3));
    assert_eq!(find_group(&groups, &[4; 32]), None);
    assert_eq!(find_group(&Vec::new(), &[1; 32]), None);
    let mut near = [1u8; 32];
    near[31] = 0;
    assert_eq!(find_group(&groups, &near), None);
}

#[test]
fn send_report_counts_the_bytes_of_the_message() {
    let output = send_output(&[0xcd; 32], "abcd", "héllo");
    assert_eq!(output.event_id, "cd".repeat(32));
    assert_eq!(output.group_id, "abcd");
    assert_eq!(output.message_length, 6);
    assert_eq!(send_output(&[0; 32], "", "").message_length, 0);
}

#[test]
fn output_envelope_holds_data_or_error() {
    let ok = Output::ok(5u8);
    assert!(ok.success);
    assert_eq!(ok.data, Some(5));
    assert_eq!(ok.error, None);
    let err: Output<u8> = Output::err("boom".to_string());
    assert!(!err.success);
    assert_eq!(err.data, None);
    assert_eq!(err.error, Some("boom".to_string()));
}
