use media_pipeline::download::{resolve, Error, Input};

fn resolved(input: &str) -> Option<String> {
    Input::from_uri(input).map(|i| i.uri().clone())
}

#[test]
fn watch_page_rewrites_to_short_link() {
    assert_eq!(
        resolved("https://www.youtube.com/watch?v=dQw4w9WgXcQ"),
        Some("https://youtu.be/dQw4w9WgXcQ".to_string())
    );
}

#[test]
fn music_host_rewrites_to_short_link() {
    assert_eq!(
        resolved("https://music.youtube.com/watch?v=abc123"),
        Some("https://youtu.be/abc123".to_string())
    );
}

#[test]
fn watch_page_ignores_other_parameters() {
    assert_eq!(
        resolved("https://www.youtube.com/watch?t=10&v=abc&x=1"),
        Some("https://youtu.be/abc".to_string())
    );
}

#[test]
fn watch_page_without_id_is_rejected() {
    assert_eq!(resolved("https://www.youtube.com/watch?t=10"), None);
}

#[test]
fn short_link_resolves_to_itself() {
    assert_eq!(
        resolved("https://youtu.be/abc123"),
        Some("https://youtu.be/abc123".to_string())
    );
}

#[test]
fn reel_path_resolves_to_itself() {
    assert_eq!(
        resolved("https://www.instagram.com/reel/xyz"),
        Some("https://www.instagram.com/reel/xyz".to_string())
    );
}

#[test]
fn instagram_non_reel_path_is_rejected() {
    assert_eq!(resolved("https://www.instagram.com/p/xyz"), None);
}

#[test]
fn passthrough_hosts_keep_their_path() {
    assert_eq!(
        resolved("https://vm.tiktok.com/ZM123/"),
        Some("https://vm.tiktok.com/ZM123/".to_string())
    );
    assert_eq!(
        resolved("https://vk.com/video-1_2"),
        Some("https://vk.com/video-1_2".to_string())
    );
    assert_eq!(
        resolved("https://twitter.com/u/status/5"),
        Some("https://twitter.com/u/status/5".to_string())
    );
    assert_eq!(
        resolved("https://x.com/u/status/5"),
        Some("https://x.com/u/status/5".to_string())
    );
}

#[test]
fn unknown_host_is_rejected() {
    assert_eq!(resolved("https://example.com/x"), None);
}

#[test]
fn resolve_reports_invalid_link() {
    assert!(matches!(
        resolve("https://example.com/x"),
        Err(Error::InvalidLink)
    ));
    assert!(matches!(resolve("not a uri at all \u{7f}"), Err(Error::InvalidLink)));
    assert!(matches!(resolve(""), Err(Error::InvalidLink)));
    assert!(resolve("https://youtu.be/ok").is_ok());
}

#[test]
fn resolver_is_total_on_odd_inputs() {
    for input in [
        "",
        " ",
        "::::",
        "http://",
        "https://www.youtube.com",
        "https://www.youtube.com/watch",
        "ftp://youtu.be/abc",
        "https://youtu.be",
        "\"quotes\"",
        "https://x.com",
    ] {
        let _ = resolve(input);
    }
}
