use media_pipeline::download::Error;
use media_pipeline::strutil::trim;
use media_pipeline::telegram::{Message, MessageKind, MessageCommon, MediaKind, Update, UpdateKind, User, Chat, ChatKind};
use media_pipeline::utils::LimitedFormatter;
use media_pipeline::website::{content_disposition, extract_link, web_error_message};

#[test]
fn link_parameter_is_extracted_and_decoded() {
    assert_eq!(
        extract_link(Some("link=https%3A%2F%2Fyoutu.be%2Fabc")),
        Ok("https://youtu.be/abc".to_string())
    );
    assert_eq!(
        extract_link(Some("link=plain")),
        Ok("plain".to_string())
    );
}

#[test]
fn only_the_last_query_pair_counts() {
    assert_eq!(
        extract_link(Some("x=1&link=https%3A%2F%2Fa")),
        Ok("https://a".to_string())
    );
    // a later non-link pair hides an earlier link pair
    assert_eq!(
        extract_link(Some("link=first&x=1")),
        Err("`link` query parameter missing")
    );
    assert_eq!(
        extract_link(Some("link=first&link=second")),
        Ok("second".to_string())
    );
}

#[test]
fn missing_query_and_missing_link_are_distinct_errors() {
    assert_eq!(extract_link(None), Err("no query parameters provided"));
    assert_eq!(
        extract_link(Some("a=1&b=2")),
        Err("`link` query parameter missing")
    );
}

#[test]
fn web_messages_match_the_error_table() {
    assert_eq!(web_error_message(Error::TooLarge), "The media is too big");
    assert_eq!(
        web_error_message(Error::IsStream),
        "Livestreams can't be downloaded"
    );
    assert_eq!(
        web_error_message(Error::NotFound),
        "Invalid video ID, make sure the link is copied & pasted correctly"
    );
    assert_eq!(
        web_error_message(Error::InvalidLink),
        "Invalid link, make sure the link is copied & pasted correctly"
    );
    assert_eq!(web_error_message(Error::MetadataFetchFailed), "Server error");
    assert_eq!(web_error_message(Error::DataFetchFailed), "Server error");
}

#[test]
fn content_disposition_names_the_file() {
    assert_eq!(
        content_disposition("clip.mp4"),
        "attachment; filename=\"clip.mp4\""
    );
}

#[test]
fn trim_strips_surrounding_whitespace() {
    assert_eq!(trim("  a b \t\n"), "a b");
    assert_eq!(trim(""), "");
    assert_eq!(trim(" \r\n\t "), "");
    assert_eq!(trim("x"), "x");
}

#[test]
fn limited_formatter_truncates_with_ellipsis() {
    let mut buf: LimitedFormatter<8> = LimitedFormatter::new();
    buf.write_str("abc");
    assert_eq!(buf.as_bytes().as_slice(), b"abc");
    buf.write_str("defgh");
    assert_eq!(buf.as_bytes().as_slice(), b"abcde...");
    buf.write_str("more");
    assert_eq!(buf.as_bytes().as_slice(), b"abcde...");
}

#[test]
fn limited_formatter_keeps_short_content() {
    let mut buf: LimitedFormatter<16> = LimitedFormatter::new();
    buf.write_str("hello ");
    buf.write_str("world");
    assert_eq!(buf.as_bytes().as_slice(), b"hello world");
}

#[test]
fn update_from_exposes_the_sender() {
    let user = User {
        id: 7,
        is_bot: false,
        first_name: "A".to_string(),
        last_name: None,
        username: None,
        language_code: None,
    };
    let update = Update {
        id: 1,
        kind: UpdateKind::Message(Message {
            id: 2,
            from: Some(user),
            chat: Chat { id: 3, kind: ChatKind::Private { username: None } },
            kind: MessageKind::Common(MessageCommon {
                from: None,
                sender_chat: None,
                media_kind: MediaKind::Text { text: "/help".to_string(), entities: Vec::new() },
            }),
        }),
    };
    assert_eq!(update.from().map(|u| u.id), Some(7));

    let update = Update {
        id: 1,
        kind: UpdateKind::Message(Message {
            id: 2,
            from: None,
            chat: Chat { id: 3, kind: ChatKind::Private { username: None } },
            kind: MessageKind::Common(MessageCommon {
                from: None,
                sender_chat: None,
                media_kind: MediaKind::Text { text: "hi".to_string(), entities: Vec::new() },
            }),
        }),
    };
    assert!(update.from().is_none());
}
