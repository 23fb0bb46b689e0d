use media_pipeline::cache::Cache;
use media_pipeline::delivery::{
    progress_message, usage_message, user_message, Action, Delivery, Event,
};
use media_pipeline::download::{Error, Media, MediaKind};

fn begin(raw: &str, kind: MediaKind) -> (Delivery, Vec<Action>) {
    let mut d = Delivery::new(kind);
    let acts = d.on_event(Event::Begin { raw: raw.to_string() });
    (d, acts)
}

fn lookup_uri(acts: &[Action]) -> Option<String> {
    acts.iter().find_map(|a| match a {
        Action::Lookup { uri } => Some(uri.clone()),
        _ => None,
    })
}

fn has_acquire(acts: &[Action]) -> bool {
    acts.iter().any(|a| matches!(a, Action::AcquireMedia { .. }))
}

#[test]
fn blank_input_asks_for_usage() {
    let (_, acts) = begin("   ", MediaKind::Video);
    assert_eq!(acts.len(), 1);
    assert!(matches!(acts[0], Action::ShowUsage));
}

#[test]
fn bad_link_reports_invalid_after_progress() {
    let (_, acts) = begin("https://example.com/x", MediaKind::Video);
    assert_eq!(acts.len(), 2);
    assert!(matches!(acts[0], Action::ShowProgress));
    assert!(matches!(
        acts[1],
        Action::Report { error: Error::InvalidLink }
    ));
}

#[test]
fn link_is_trimmed_before_resolution() {
    let (_, acts) = begin("  https://youtu.be/abc \n", MediaKind::Audio);
    assert_eq!(lookup_uri(&acts), Some("https://youtu.be/abc".to_string()));
}

#[test]
fn full_request_walks_miss_path_then_hit_path() {
    let mut cache = Cache::new();
    let raw = "https://www.youtube.com/watch?v=dQw4w9WgXcQ";

    // First request: previously unseen link, video kind.
    let (mut d, acts) = begin(raw, MediaKind::Video);
    assert!(matches!(acts[0], Action::ShowProgress));
    let uri = lookup_uri(&acts).unwrap();
    assert_eq!(uri, "https://youtu.be/dQw4w9WgXcQ");

    let cached = cache.get(&uri, MediaKind::Video);
    assert_eq!(cached, None);
    let acts = d.on_event(Event::Looked { cached });
    assert_eq!(acts.len(), 1);
    assert!(matches!(&acts[0], Action::AcquireMedia { uri: u } if u == &uri));

    let media = Media::streamed(1000, "clip.mp4".to_string());
    let acts = d.on_event(Event::Acquired { result: Ok(media) });
    assert_eq!(acts.len(), 1);
    assert!(matches!(acts[0], Action::UploadMedia { .. }));

    let acts = d.on_event(Event::Uploaded { id: Some("tg77".to_string()) });
    assert_eq!(acts.len(), 1);
    match &acts[0] {
        Action::RecordEntry { uri: u, id } => {
            cache.set(u.clone(), MediaKind::Video, id.clone());
        }
        other => panic!("expected a cache record, got {:?} actions", other_kind(other)),
    }

    let acts = d.on_event(Event::Recorded);
    assert_eq!(acts.len(), 1);
    assert!(matches!(acts[0], Action::RemoveIndicator));
    let acts = d.on_event(Event::Cleaned);
    assert!(acts.is_empty());

    // Second identical request: served from the cache, no acquisition.
    let (mut d2, acts) = begin(raw, MediaKind::Video);
    let uri2 = lookup_uri(&acts).unwrap();
    let cached = cache.get(&uri2, MediaKind::Video);
    assert_eq!(cached, Some("tg77".to_string()));
    let acts = d2.on_event(Event::Looked { cached });
    assert!(!has_acquire(&acts));
    assert_eq!(acts.len(), 2);
    assert!(matches!(&acts[0], Action::DeliverByReference { id } if id == "tg77"));
    assert!(matches!(acts[1], Action::RemoveIndicator));
    let acts = d2.on_event(Event::Delivered { ok: true });
    assert!(acts.is_empty());
}

fn other_kind(a: &Action) -> &'static str {
    match a {
        Action::ShowUsage => "usage",
        Action::ShowProgress => "progress",
        Action::Lookup { .. } => "lookup",
        Action::AcquireMedia { .. } => "acquire",
        Action::UploadMedia { .. } => "upload",
        Action::DeliverByReference { .. } => "deliver",
        Action::RecordEntry { .. } => "record",
        Action::RemoveIndicator => "cleanup",
        Action::Report { .. } => "report",
    }
}

#[test]
fn two_cached_requests_both_deliver_without_download() {
    let mut cache = Cache::new();
    cache.set(
        "https://youtu.be/abc".to_string(),
        MediaKind::Audio,
        "tid".to_string(),
    );

    // Both requests look up first; neither lookup mutates anything, so the
    // lookups can run at the same time. Each then delivers by reference.
    let (mut a, acts_a) = begin("https://youtu.be/abc", MediaKind::Audio);
    let (mut b, acts_b) = begin("https://youtu.be/abc", MediaKind::Audio);
    let got_a = cache.get(&lookup_uri(&acts_a).unwrap(), MediaKind::Audio);
    let got_b = cache.get(&lookup_uri(&acts_b).unwrap(), MediaKind::Audio);

    let acts_a = a.on_event(Event::Looked { cached: got_a });
    let acts_b = b.on_event(Event::Looked { cached: got_b });
    assert!(!has_acquire(&acts_a));
    assert!(!has_acquire(&acts_b));
    assert!(matches!(&acts_a[0], Action::DeliverByReference { id } if id == "tid"));
    assert!(matches!(&acts_b[0], Action::DeliverByReference { id } if id == "tid"));

    assert!(a.on_event(Event::Delivered { ok: true }).is_empty());
    assert!(b.on_event(Event::Delivered { ok: true }).is_empty());
}

#[test]
fn acquisition_failure_reports_and_skips_cache() {
    let (mut d, acts) = begin("https://youtu.be/abc", MediaKind::Video);
    let uri = lookup_uri(&acts).unwrap();
    let acts = d.on_event(Event::Looked { cached: None });
    assert!(matches!(&acts[0], Action::AcquireMedia { uri: u } if u == &uri));
    let acts = d.on_event(Event::Acquired { result: Err(Error::TooLarge) });
    assert_eq!(acts.len(), 1);
    assert!(matches!(acts[0], Action::Report { error: Error::TooLarge }));
}

#[test]
fn data_phase_failure_is_reported_verbatim() {
    let (mut d, _) = begin("https://youtu.be/abc", MediaKind::Audio);
    let _ = d.on_event(Event::Looked { cached: None });
    let acts = d.on_event(Event::Acquired { result: Err(Error::DataFetchFailed) });
    assert_eq!(acts.len(), 1);
    assert!(matches!(acts[0], Action::Report { error: Error::DataFetchFailed }));
}

#[test]
fn upload_failure_leaves_indicator_in_place() {
    let (mut d, _) = begin("https://youtu.be/abc", MediaKind::Video);
    let _ = d.on_event(Event::Looked { cached: None });
    let media = Media::buffered(vec![1, 2, 3], "a.mp4".to_string());
    let _ = d.on_event(Event::Acquired { result: Ok(media) });
    let acts = d.on_event(Event::Uploaded { id: None });
    assert!(acts.is_empty());
}

#[test]
fn user_messages_match_the_error_table() {
    assert_eq!(
        user_message(MediaKind::Video, Error::TooLarge),
        "The video is too large"
    );
    assert_eq!(
        user_message(MediaKind::Audio, Error::TooLarge),
        "The track is too large"
    );
    assert_eq!(
        user_message(MediaKind::Video, Error::IsStream),
        "Live streams can't be downloaded while they're ongoing"
    );
    assert_eq!(
        user_message(MediaKind::Audio, Error::NotFound),
        "The provided link doesn't point to an existing video/track.\nMake sure the link is copied correctly and try again.\nKeep in mind that shortened links are not accepted."
    );
    assert_eq!(
        user_message(MediaKind::Audio, Error::InvalidLink),
        user_message(MediaKind::Video, Error::NotFound)
    );
    assert_eq!(
        user_message(MediaKind::Video, Error::MetadataFetchFailed),
        "An unexpected error occured while downloading"
    );
    assert_eq!(
        user_message(MediaKind::Video, Error::DataFetchFailed),
        "An unexpected error occured while downloading"
    );
}

#[test]
fn usage_and_progress_messages_name_the_kind() {
    assert_eq!(
        usage_message(MediaKind::Video),
        "No link provided\nAn example of using the command:\n\t/video https://www.youtube.com/watch?v=dQw4w9WgXcQ"
    );
    assert_eq!(
        usage_message(MediaKind::Audio),
        "No link provided\nAn example of using the command:\n\t/audio https://www.youtube.com/watch?v=dQw4w9WgXcQ"
    );
    assert_eq!(progress_message(MediaKind::Video), "Downloading video...");
    assert_eq!(progress_message(MediaKind::Audio), "Downloading audio...");
}
