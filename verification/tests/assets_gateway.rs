use renderer::assets::{asset_filename, hashed_filename, indexed_filename, caps_from_encoders};
use renderer::gateway::{ApiError, WorkerStage, collect_source_urls, resolve_assets,
    font_requests, build_font_map, output_decision, fail_message, no_assets_message};
use renderer::jobs::{Job, JobStatus};
use renderer::types::{Design, TrackItem, TrackType, Details, Trim};

fn empty_details() -> Details {
    Details {
        src: None,
        width: None,
        height: None,
        opacity_tenths: None,
        volume_tenths: None,
        left: None,
        top: None,
        transform: None,
        brightness_tenths: None,
        flip_x: None,
        flip_y: None,
        rotate: None,
        text: None,
        font_family: None,
        font_url: None,
        font_size: None,
        color: None,
        border_color: None,
        border_width: None,
    }
}

fn item(kind: TrackType, details: Details) -> TrackItem {
    TrackItem {
        id: None,
        kind,
        details: Some(details),
        trim: Trim { from: None, to: None },
        display: Trim { from: None, to: None },
    }
}

fn design_of(items: Vec<TrackItem>) -> Design {
    Design { id: None, track_items: items, track_items_map: Vec::new(), size: None, fps: None }
}

#[test]
fn filename_from_url_last_segment() {
    assert_eq!(asset_filename("https://example.com/media/video.mp4"), "video.mp4");
}

#[test]
fn filename_falls_back_when_segment_empty_or_unparseable() {
    assert_eq!(asset_filename("https://example.com/dir/"), "asset.bin");
    assert_eq!(asset_filename("not a url"), "asset.bin");
}

#[test]
fn indexed_name_prefixes_counter() {
    assert_eq!(indexed_filename(2, "a.png"), "2-a.png");
}

#[test]
fn hashed_name_prefixes_digest() {
    // SHA-256 of the empty input starts with e3b0c44298fc1c14.
    assert_eq!(hashed_filename(&Vec::new(), "video.mp4"), "e3b0c44298fc1c14-video.mp4");
    // SHA-256 of "abc" starts with ba7816bf8f01cfea.
    assert_eq!(hashed_filename(&b"abc".to_vec(), "a.bin"), "ba7816bf8f01cfea-a.bin");
}

#[test]
fn encoder_listing_decides_capabilities() {
    assert!(caps_from_encoders("... h264_nvenc NVIDIA ...").nvenc);
    assert!(!caps_from_encoders("libx264 only").nvenc);
}

#[test]
fn source_urls_in_canonical_order() {
    let mut a = empty_details();
    a.src = Some("https://e/1.mp4".to_string());
    let mut b = empty_details();
    b.src = Some("https://e/2.mp3".to_string());
    let no_src = empty_details();
    let d = design_of(vec![
        item(TrackType::Video, a),
        item(TrackType::Text, no_src),
        item(TrackType::Audio, b),
    ]);
    assert_eq!(collect_source_urls(&d), vec!["https://e/1.mp4", "https://e/2.mp3"]);
}

#[test]
fn source_urls_fall_back_to_the_keyed_list() {
    let mut a = empty_details();
    a.src = Some("https://e/x.mp4".to_string());
    let d = Design {
        id: None,
        track_items: Vec::new(),
        track_items_map: vec![("k".to_string(), item(TrackType::Video, a))],
        size: None,
        fps: None,
    };
    assert_eq!(collect_source_urls(&d), vec!["https://e/x.mp4"]);
}

#[test]
fn resolved_assets_pair_items_with_paths_in_order() {
    let mut a = empty_details();
    a.src = Some("https://e/1.mp4".to_string());
    let mut b = empty_details();
    b.src = Some("https://e/2.mp3".to_string());
    let d = design_of(vec![
        item(TrackType::Video, a),
        item(TrackType::Text, empty_details()),
        item(TrackType::Audio, b),
    ]);
    let paths = vec!["/w/1.mp4".to_string(), "/w/2.mp3".to_string()];
    let assets = resolve_assets(&d, &paths);
    assert_eq!(assets.len(), 2);
    assert_eq!(assets[0].0, 0);
    assert_eq!(assets[0].1.kind, TrackType::Video);
    assert_eq!(assets[0].2, "/w/1.mp4");
    assert_eq!(assets[1].0, 1);
    assert_eq!(assets[1].1.kind, TrackType::Audio);
    assert_eq!(assets[1].2, "/w/2.mp3");
}

#[test]
fn font_requests_only_for_text_items_with_a_font() {
    let mut with_font = empty_details();
    with_font.font_url = Some("https://e/f.ttf".to_string());
    let mut t1 = item(TrackType::Text, with_font.clone());
    t1.id = Some("t1".to_string());
    let t2 = item(TrackType::Text, empty_details());
    let mut unnamed = item(TrackType::Text, with_font);
    unnamed.id = None;
    let d = design_of(vec![t1, t2, unnamed]);
    let reqs = font_requests(&d);
    assert_eq!(reqs.len(), 2);
    assert_eq!(reqs[0].0.as_deref(), Some("t1"));
    assert_eq!(reqs[0].1, "https://e/f.ttf");
    assert!(reqs[1].0.is_none());
}

#[test]
fn font_map_drops_requests_without_identifier() {
    let reqs = vec![
        (Some("t1".to_string()), "https://e/a.ttf".to_string()),
        (None, "https://e/b.ttf".to_string()),
    ];
    let paths = vec!["/w/a.ttf".to_string(), "/w/b.ttf".to_string()];
    let map = build_font_map(&reqs, &paths);
    assert_eq!(map, vec![("t1".to_string(), "/w/a.ttf".to_string())]);
}

#[test]
fn output_query_decision() {
    assert_eq!(output_decision(&None), Err(ApiError::NotFound));
    let pending = Job {
        id: 1,
        status: JobStatus::Running,
        progress: 10,
        output_path: None,
        error: None,
        created_at_ms: 0,
        workdir: "/w".to_string(),
    };
    assert_eq!(output_decision(&Some(pending)), Err(ApiError::NotReady));
    let done = Job {
        id: 1,
        status: JobStatus::Completed,
        progress: 100,
        output_path: Some("/w/output.mp4".to_string()),
        error: None,
        created_at_ms: 0,
        workdir: "/w".to_string(),
    };
    assert_eq!(output_decision(&Some(done)), Ok("/w/output.mp4".to_string()));
}

#[test]
fn api_error_messages() {
    assert_eq!(ApiError::Validation.message(), "invalid id");
    assert_eq!(ApiError::NotFound.message(), "not found");
    assert_eq!(ApiError::NotReady.message(), "not ready");
}

#[test]
fn failure_messages_by_stage() {
    assert_eq!(fail_message(WorkerStage::Workdir, "denied"), "denied");
    assert_eq!(
        fail_message(WorkerStage::Download, "bad status 404"),
        "download failed: bad status 404"
    );
    assert_eq!(fail_message(WorkerStage::FontDownload, "x"), "font download failed: x");
    assert_eq!(fail_message(WorkerStage::Build, "no visual tracks"),
        "build failed: no visual tracks");
    assert_eq!(fail_message(WorkerStage::Spawn, "enoent"), "spawn failed: enoent");
    assert_eq!(fail_message(WorkerStage::Exit, "exit status: 1"),
        "ffmpeg exit status: exit status: 1");
    assert_eq!(fail_message(WorkerStage::Wait, "io"), "wait failed: io");
    assert_eq!(no_assets_message(), "no assets with 'src' found");
}
