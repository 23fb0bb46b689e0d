use media_pipeline::download::{Error, Media, MediaKind};
use media_pipeline::yt_dlp::{
    check_policy, choose_strategy, data_args, eval_metadata, filename_for, metadata_args,
    Metadata, SizeStrategy, ToolOutcome, MAX_FILESIZE,
};

fn meta(filesize: Option<u64>, is_live: bool) -> Metadata {
    Metadata {
        id: "vid".to_string(),
        format_id: "22".to_string(),
        title: "title".to_string(),
        filesize,
        is_live,
    }
}

#[test]
fn size_at_ceiling_is_too_large() {
    assert_eq!(MAX_FILESIZE, 1 << 30);
    assert!(matches!(
        check_policy(&meta(Some(1 << 30), false)),
        Err(Error::TooLarge)
    ));
}

#[test]
fn size_below_ceiling_proceeds() {
    assert!(check_policy(&meta(Some((1 << 30) - 1), false)).is_ok());
    assert!(check_policy(&meta(None, false)).is_ok());
}

#[test]
fn live_flag_always_rejects() {
    assert!(matches!(
        check_policy(&meta(None, true)),
        Err(Error::IsStream)
    ));
    assert!(matches!(
        check_policy(&meta(Some(10), true)),
        Err(Error::IsStream)
    ));
    assert!(matches!(
        check_policy(&meta(Some(1 << 40), true)),
        Err(Error::IsStream)
    ));
}

#[test]
fn metadata_json_is_decoded() {
    let json = br#"{"id":"dQw4w9WgXcQ","format_id":"22","title":"Never","filesize":1234,"is_live":false}"#;
    let outcome = ToolOutcome::Finished {
        success: true,
        stdout: json.to_vec(),
        stderr: Vec::new(),
    };
    let m = eval_metadata(&outcome).unwrap();
    assert_eq!(m.id, "dQw4w9WgXcQ");
    assert_eq!(m.format_id, "22");
    assert_eq!(m.title, "Never");
    assert_eq!(m.filesize, Some(1234));
    assert!(!m.is_live);
}

#[test]
fn metadata_defaults_are_applied() {
    let json = br#"{"id":"a","format_id":"18","title":"t"}"#;
    let outcome = ToolOutcome::Finished {
        success: true,
        stdout: json.to_vec(),
        stderr: Vec::new(),
    };
    let m = eval_metadata(&outcome).unwrap();
    assert_eq!(m.filesize, None);
    assert!(!m.is_live);
}

#[test]
fn live_metadata_carries_the_flag() {
    let json = br#"{"id":"a","format_id":"18","title":"t","is_live":true}"#;
    let outcome = ToolOutcome::Finished {
        success: true,
        stdout: json.to_vec(),
        stderr: Vec::new(),
    };
    let m = eval_metadata(&outcome).unwrap();
    assert!(m.is_live);
    assert!(matches!(check_policy(&m), Err(Error::IsStream)));
}

#[test]
fn undecodable_metadata_fails() {
    let outcome = ToolOutcome::Finished {
        success: true,
        stdout: b"not json".to_vec(),
        stderr: Vec::new(),
    };
    assert!(matches!(
        eval_metadata(&outcome),
        Err(Error::MetadataFetchFailed)
    ));
    let missing = ToolOutcome::Finished {
        success: true,
        stdout: br#"{"id":"a"}"#.to_vec(),
        stderr: Vec::new(),
    };
    assert!(matches!(
        eval_metadata(&missing),
        Err(Error::MetadataFetchFailed)
    ));
}

#[test]
fn truncation_signature_means_not_found() {
    let outcome = ToolOutcome::Finished {
        success: false,
        stdout: Vec::new(),
        stderr: b"ERROR: Incomplete data received; output truncated.\n".to_vec(),
    };
    assert!(matches!(eval_metadata(&outcome), Err(Error::NotFound)));
}

#[test]
fn other_tool_failures_are_metadata_errors() {
    let outcome = ToolOutcome::Finished {
        success: false,
        stdout: Vec::new(),
        stderr: b"ERROR: something else\n".to_vec(),
    };
    assert!(matches!(
        eval_metadata(&outcome),
        Err(Error::MetadataFetchFailed)
    ));
    assert!(matches!(
        eval_metadata(&ToolOutcome::LaunchFailed),
        Err(Error::MetadataFetchFailed)
    ));
}

#[test]
fn strategy_follows_known_size() {
    assert_eq!(
        choose_strategy(&Some(77)),
        SizeStrategy::Streamed { filesize: 77 }
    );
    assert_eq!(choose_strategy(&None), SizeStrategy::BufferAll);
}

#[test]
fn buffered_handle_reports_exact_length() {
    let bytes = vec![1u8, 2, 3, 4, 5];
    let media = Media::buffered(bytes, "song.mp3".to_string());
    assert_eq!(media.size(), 5);
    assert_eq!(media.filename().as_str(), "song.mp3");
}

#[test]
fn empty_buffer_reports_zero_length() {
    let media = Media::buffered(Vec::new(), "a.mp4".to_string());
    assert_eq!(media.size(), 0);
}

#[test]
fn streamed_handle_reports_announced_length() {
    let mut media = Media::streamed(1234, "clip.mp4".to_string());
    assert_eq!(media.size(), 1234);
    *media.filename_mut() = "other.mp4".to_string();
    assert_eq!(media.filename().as_str(), "other.mp4");
}

#[test]
fn metadata_invocation_arguments() {
    let audio: Vec<String> = metadata_args("https://youtu.be/a", MediaKind::Audio);
    assert_eq!(audio, vec!["-x", "--no-download", "-J", "https://youtu.be/a"]);
    let video: Vec<String> = metadata_args("https://youtu.be/a", MediaKind::Video);
    assert_eq!(video, vec!["--no-download", "-J", "https://youtu.be/a"]);
}

#[test]
fn data_invocation_arguments() {
    let video: Vec<String> = data_args("https://youtu.be/a", "22", MediaKind::Video);
    assert_eq!(
        video,
        vec![
            "--recode-video",
            "mp4",
            "-f",
            "22",
            "--embed-metadata",
            "--embed-thumbnail",
            "-o",
            "-",
            "https://youtu.be/a",
        ]
    );
    let audio: Vec<String> = data_args("https://youtu.be/a", "140", MediaKind::Audio);
    assert_eq!(
        audio,
        vec![
            "--audio-format",
            "mp3",
            "-x",
            "-f",
            "140",
            "--embed-metadata",
            "--embed-thumbnail",
            "-o",
            "-",
            "https://youtu.be/a",
        ]
    );
}

#[test]
fn filename_takes_kind_extension() {
    assert_eq!(filename_for("My Song", MediaKind::Audio), "My Song.mp3");
    assert_eq!(filename_for("My Clip", MediaKind::Video), "My Clip.mp4");
    assert_eq!(MediaKind::Audio.mime_type(), "audio/mpeg");
    assert_eq!(MediaKind::Video.mime_type(), "video/mpeg");
    assert_eq!(MediaKind::Audio.extension(), "mp3");
    assert_eq!(MediaKind::Video.extension(), "mp4");
}
