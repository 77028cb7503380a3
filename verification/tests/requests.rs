use felix_bot::config::{CHANNEL_ID, DISCORD_API_URL, DISCORD_MAX_MESSAGE_LEN, MAX_OUTPUT_TOKENS};
use felix_bot::decimal::decimal_string;
use felix_bot::delivery::SendOutcome;
use felix_bot::discord::{
    bot_authorization, channel_messages_url, frame_message_payload, message_payload, send_outcome,
};
use felix_bot::http::status_is_success;

#[test]
fn numbers_in_decimal() {
    assert_eq!(decimal_string(0), "0");
    assert_eq!(decimal_string(7), "7");
    assert_eq!(decimal_string(9), "9");
    assert_eq!(decimal_string(10), "10");
    assert_eq!(decimal_string(1000), "1000");
    assert_eq!(decimal_string(1234567890), "1234567890");
    assert_eq!(decimal_string(u64::MAX), "18446744073709551615");
}

#[test]
fn limits_of_the_services() {
    assert_eq!(DISCORD_MAX_MESSAGE_LEN, 2000);
    assert_eq!(MAX_OUTPUT_TOKENS, 1000);
}

#[test]
fn address_of_the_channel() {
    assert_eq!(
        channel_messages_url(DISCORD_API_URL, CHANNEL_ID),
        "https://discord.com/api/v10/channels/1218191951237742612/messages"
    );
    assert_eq!(channel_messages_url("http://localhost", 0), "http://localhost/channels/0/messages");
}

#[test]
fn credential_of_a_bot() {
    assert_eq!(bot_authorization("abc.def"), "Bot abc.def");
    assert_eq!(bot_authorization(""), "Bot ");
}

#[test]
fn payload_is_a_json_object() {
    assert_eq!(message_payload("hi"), "{\"content\":\"hi\"}");
    assert_eq!(message_payload(""), "{\"content\":\"\"}");
    assert_eq!(frame_message_payload("\"hi\""), "{\"content\":\"hi\"}");
}

#[test]
fn payload_escapes_the_chunk() {
    let chunk = "Tuesday | [Kite Day](https://x.test/kite-day)\nA \"tale\" \\ \u{1f43e}\n\n";
    let body = message_payload(chunk);
    assert_eq!(
        body,
        "{\"content\":\"Tuesday | [Kite Day](https://x.test/kite-day)\\nA \\\"tale\\\" \\\\ \u{1f43e}\\n\\n\"}"
    );
    let parsed: serde_json::Value = serde_json::from_str(&body).unwrap();
    let mut expected = serde_json::Map::new();
    expected.insert("content".to_string(), serde_json::Value::from(chunk));
    assert_eq!(parsed, serde_json::Value::Object(expected));
}

#[test]
fn success_is_two_hundred_to_two_hundred_ninety_nine() {
    assert!(!status_is_success(0));
    assert!(!status_is_success(199));
    assert!(status_is_success(200));
    assert!(status_is_success(204));
    assert!(status_is_success(299));
    assert!(!status_is_success(300));
    assert!(!status_is_success(404));
    assert!(!status_is_success(u16::MAX));
}

#[test]
fn answer_of_the_chat_service() {
    assert_eq!(send_outcome(200, "{\"id\":\"1\"}".to_string()), SendOutcome::Delivered);
    assert_eq!(send_outcome(299, String::new()), SendOutcome::Delivered);
    assert_eq!(
        send_outcome(400, "{\"message\":\"Cannot send an empty message\"}".to_string()),
        SendOutcome::Rejected("{\"message\":\"Cannot send an empty message\"}".to_string())
    );
    assert_eq!(send_outcome(199, "early".to_string()), SendOutcome::Rejected("early".to_string()));
    assert_eq!(send_outcome(300, "moved".to_string()), SendOutcome::Rejected("moved".to_string()));
}
