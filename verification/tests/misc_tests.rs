use blockchain_sim::chat::{
    classify_command, encode_chat_message, format_message, help_text, ChatCommand, ChatMessage,
};
use blockchain_sim::digest::{sha256_digest, to_hex_string};
use blockchain_sim::numfmt::{u32_to_string, u64_to_string, usize_to_string};
use blockchain_sim::strings::{parse_u32, str_ends_with, str_eq, str_starts_with};

#[test]
fn sha256_of_empty_input() {
    // The well-known digest of the empty byte string; an identity stub in
    // place of the real hash could not produce it.
    let d = sha256_digest(&[]);
    assert_eq!(
        to_hex_string(&d),
        "e3b0c44298fc1c149afbf4c8996fb92427ae41e4649b934ca495991b7852b855"
    );
    let d = sha256_digest("abc".as_bytes());
    assert_eq!(
        to_hex_string(&d),
        "ba7816bf8f01cfea414140de5dae2223b00361a396177a9cb410ff61f20015ad"
    );
}

#[test]
fn hex_rendering() {
    assert_eq!(to_hex_string(&vec![0xbe, 0xef]), "beef");
    assert_eq!(to_hex_string(&vec![]), "");
    assert_eq!(to_hex_string(&vec![0x00, 0x0a, 0xff]), "000aff");
}

#[test]
fn decimal_rendering() {
    assert_eq!(u64_to_string(0), "0");
    assert_eq!(u64_to_string(12345), "12345");
    assert_eq!(u64_to_string(u64::MAX), "18446744073709551615");
    assert_eq!(u32_to_string(42), "42");
    assert_eq!(usize_to_string(7), "7");
}

#[test]
fn decimal_parsing() {
    assert_eq!(parse_u32("0"), Some(0));
    assert_eq!(parse_u32("42"), Some(42));
    assert_eq!(parse_u32("007"), Some(7));
    assert_eq!(parse_u32("4294967295"), Some(u32::MAX));
    assert_eq!(parse_u32("4294967296"), None);
    assert_eq!(parse_u32("99999999999"), None);
    assert_eq!(parse_u32(""), None);
    assert_eq!(parse_u32("12a"), None);
    assert_eq!(parse_u32("-1"), None);
}

#[test]
fn string_helpers() {
    assert!(str_eq("abc", "abc"));
    assert!(!str_eq("abc", "abd"));
    assert!(!str_eq("abc", "ab"));
    assert!(str_starts_with("/api/blocks/5", "/api/blocks/"));
    assert!(!str_starts_with("/api", "/api/blocks/"));
    assert!(str_ends_with("/api/blocks/5/transactions", "/transactions"));
    assert!(!str_ends_with("/api/blocks/5", "/transactions"));
}

#[test]
fn chat_message_encoding() {
    let m = ChatMessage::from_user("ada", "hello \"you\"", "12:00:00");
    assert_eq!(
        encode_chat_message(&m),
        "{\"username\":\"ada\",\"content\":\"hello \\\"you\\\"\",\"timestamp\":\"12:00:00\",\"message_type\":\"UserMessage\"}"
    );
    let j = ChatMessage::joined("ada", "12:00:00");
    assert_eq!(
        encode_chat_message(&j),
        "{\"username\":\"ada\",\"content\":\"Joined the Chat\",\"timestamp\":\"12:00:00\",\"message_type\":\"SystemNotification\"}"
    );
    let l = ChatMessage::leaving("ada", "12:00:01");
    assert!(encode_chat_message(&l).contains("Leaving the Chat"));
}

#[test]
fn chat_message_display() {
    let m = ChatMessage::from_user("ada", "hi", "12:00:00");
    assert_eq!(format_message(&m), "\n[ada hi]\n");
    let j = ChatMessage::joined("ada", "12:00:00");
    assert_eq!(format_message(&j), "┌─[12:00:00]\n└─ ada ▶ Joined the Chat\n");
}

#[test]
fn chat_commands() {
    assert_eq!(classify_command(""), ChatCommand::Ignore);
    assert_eq!(classify_command("/help"), ChatCommand::ShowHelp);
    assert_eq!(classify_command("/clear"), ChatCommand::ClearScreen);
    assert_eq!(classify_command("/quit"), ChatCommand::Quit);
    assert_eq!(classify_command("hello all"), ChatCommand::Send);
    assert_eq!(classify_command("/helpme"), ChatCommand::Send);
    assert!(help_text().contains("/quit - Exit chat"));
}
