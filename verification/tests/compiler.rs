use renderer::types::{Design, TrackItem, TrackType, Details, Trim, Size, RenderOptions,
    merge_options};
use renderer::compile::{BackendCaps, CompileError, compute_duration_ms, compile_plan};
use renderer::render::{build_ffmpeg_command, escape_text};

fn empty_details() -> Details {
    Details {
        src: None,
        width: None,
        height: None,
        opacity_tenths: None,
        volume_tenths: None,
        left: None,
        top: None,
        transform: None,
        brightness_tenths: None,
        flip_x: None,
        flip_y: None,
        rotate: None,
        text: None,
        font_family: None,
        font_url: None,
        font_size: None,
        color: None,
        border_color: None,
        border_width: None,
    }
}

fn item(kind: TrackType, details: Details) -> TrackItem {
    TrackItem {
        id: None,
        kind,
        details: Some(details),
        trim: Trim { from: None, to: None },
        display: Trim { from: None, to: None },
    }
}

fn design_of(items: Vec<TrackItem>) -> Design {
    Design { id: None, track_items: items, track_items_map: Vec::new(), size: None, fps: None }
}

fn caps_sw() -> BackendCaps {
    BackendCaps { nvenc: false }
}

#[test]
fn duration_defaults_to_ten_seconds() {
    let d = design_of(vec![item(TrackType::Image, empty_details())]);
    assert_eq!(compute_duration_ms(&d), 10_000);
}

#[test]
fn duration_is_max_over_trim_and_display_ends() {
    let mut a = item(TrackType::Video, empty_details());
    a.trim = Trim { from: Some(0), to: Some(4000) };
    let mut b = item(TrackType::Audio, empty_details());
    b.display = Trim { from: Some(1000), to: Some(9000) };
    let d = design_of(vec![a, b]);
    assert_eq!(compute_duration_ms(&d), 9000);
}

#[test]
fn duration_reads_map_when_list_is_empty() {
    let mut a = item(TrackType::Video, empty_details());
    a.trim = Trim { from: None, to: Some(7000) };
    let d = Design {
        id: None,
        track_items: Vec::new(),
        track_items_map: vec![("k".to_string(), a)],
        size: None,
        fps: None,
    };
    assert_eq!(compute_duration_ms(&d), 7000);
}

#[test]
fn no_visual_tracks_is_a_compile_error() {
    let mut audio = item(TrackType::Audio, empty_details());
    audio.details.as_mut().unwrap().src = Some("https://e/a.mp3".to_string());
    let d = design_of(vec![audio.clone()]);
    let assets = vec![(0usize, audio, "/tmp/a.mp3".to_string())];
    let r = build_ffmpeg_command("/tmp/job", &d, &assets, &caps_sw(), &Vec::new());
    match r {
        Err(e) => {
            assert_eq!(e, CompileError::NoVisualTracks);
            assert_eq!(e.message(), "no visual tracks");
        },
        Ok(_) => panic!("expected a compile error"),
    }
}

#[test]
fn minimal_image_design_compiles_to_expected_command() {
    let mut det = empty_details();
    det.src = Some("https://e/img.png".to_string());
    det.left = Some("50px".to_string());
    det.top = Some("100px".to_string());
    det.opacity_tenths = Some(500);
    let img = item(TrackType::Image, det);
    let d = design_of(vec![img.clone()]);
    let assets = vec![(0usize, img, "/tmp/job/img.png".to_string())];
    let r = build_ffmpeg_command("/tmp/job", &d, &assets, &caps_sw(), &Vec::new()).unwrap();
    let expected: Vec<&str> = vec![
        "-y",
        "-hide_banner",
        "-loglevel",
        "error",
        "-f",
        "lavfi",
        "-i",
        "color=c=black:s=1080x1920:r=30:d=10",
        "-loop",
        "1",
        "-t",
        "10.000",
        "-i",
        "/tmp/job/img.png",
        "-filter_complex",
        "[1:v]format=rgba,scale=1080:1920,colorchannelmixer=aa=0.5[v1];[0:v][v1]overlay=50:100:format=auto:enable='between(t,0.000,10.000)'[m1]",
        "-map",
        "[m1]",
        "-c:v",
        "libx264",
        "-preset",
        "veryfast",
        "-pix_fmt",
        "yuv420p",
        "-r",
        "30",
        "-map",
        "0:a?",
        "-c:a",
        "aac",
        "-b:a",
        "192k",
        "-progress",
        "pipe:1",
        "/tmp/job/output.mp4",
    ];
    assert_eq!(r.args, expected);
}

#[test]
fn near_full_opacity_omits_alpha_step() {
    let mut det = empty_details();
    det.src = Some("https://e/img.png".to_string());
    det.opacity_tenths = Some(999);
    let img = item(TrackType::Image, det);
    let d = design_of(vec![img.clone()]);
    let assets = vec![(0usize, img, "/i.png".to_string())];
    let r = build_ffmpeg_command("/w", &d, &assets, &caps_sw(), &Vec::new()).unwrap();
    let joined = r.args.join(" ");
    assert!(!joined.contains("colorchannelmixer"));
}

#[test]
fn lower_opacity_keeps_exact_alpha_step() {
    let mut det = empty_details();
    det.src = Some("https://e/img.png".to_string());
    det.opacity_tenths = Some(998);
    let img = item(TrackType::Image, det);
    let d = design_of(vec![img.clone()]);
    let assets = vec![(0usize, img, "/i.png".to_string())];
    let r = build_ffmpeg_command("/w", &d, &assets, &caps_sw(), &Vec::new()).unwrap();
    let joined = r.args.join(" ");
    assert!(joined.contains("colorchannelmixer=aa=0.998"));
}

#[test]
fn rotation_below_threshold_is_omitted() {
    let mut det = empty_details();
    det.src = Some("https://e/v.mp4".to_string());
    det.rotate = Some("0.005deg".to_string());
    let v = item(TrackType::Video, det);
    let d = design_of(vec![v.clone()]);
    let assets = vec![(0usize, v, "/v.mp4".to_string())];
    let r = build_ffmpeg_command("/w", &d, &assets, &caps_sw(), &Vec::new()).unwrap();
    assert!(!r.args.join(" ").contains("rotate"));
}

#[test]
fn rotation_above_threshold_in_radians_form() {
    let mut det = empty_details();
    det.src = Some("https://e/v.mp4".to_string());
    det.rotate = Some("45.5deg".to_string());
    let v = item(TrackType::Video, det);
    let d = design_of(vec![v.clone()]);
    let assets = vec![(0usize, v, "/v.mp4".to_string())];
    let r = build_ffmpeg_command("/w", &d, &assets, &caps_sw(), &Vec::new()).unwrap();
    assert!(r.args.join(" ").contains(",rotate=45.500000*PI/180"));
}

#[test]
fn brightness_step_when_offset_large_enough() {
    let mut det = empty_details();
    det.src = Some("https://e/v.mp4".to_string());
    det.brightness_tenths = Some(1500);
    let v = item(TrackType::Video, det);
    let d = design_of(vec![v.clone()]);
    let assets = vec![(0usize, v, "/v.mp4".to_string())];
    let r = build_ffmpeg_command("/w", &d, &assets, &caps_sw(), &Vec::new()).unwrap();
    assert!(r.args.join(" ").contains(",eq=brightness=0.5"));
}

#[test]
fn scale_factor_scales_dimensions() {
    let mut det = empty_details();
    det.src = Some("https://e/v.mp4".to_string());
    det.width = Some(200);
    det.height = Some(100);
    det.transform = Some("scale(1.5)".to_string());
    let v = item(TrackType::Video, det);
    let d = design_of(vec![v.clone()]);
    let assets = vec![(0usize, v, "/v.mp4".to_string())];
    let r = build_ffmpeg_command("/w", &d, &assets, &caps_sw(), &Vec::new()).unwrap();
    assert!(r.args.join(" ").contains("scale=300:150"));
}

#[test]
fn two_audio_items_mix_without_normalization() {
    let mut vd = empty_details();
    vd.src = Some("https://e/v.mp4".to_string());
    let v = item(TrackType::Video, vd);
    let mut a1d = empty_details();
    a1d.src = Some("https://e/a1.mp3".to_string());
    a1d.volume_tenths = Some(800);
    let a1 = item(TrackType::Audio, a1d);
    let mut a2d = empty_details();
    a2d.src = Some("https://e/a2.mp3".to_string());
    let a2 = item(TrackType::Audio, a2d);
    let d = design_of(vec![v.clone(), a1.clone(), a2.clone()]);
    let assets = vec![
        (0usize, v, "/v.mp4".to_string()),
        (1usize, a1, "/a1.mp3".to_string()),
        (2usize, a2, "/a2.mp3".to_string()),
    ];
    let r = build_ffmpeg_command("/w", &d, &assets, &caps_sw(), &Vec::new()).unwrap();
    let joined = r.args.join(" ");
    assert!(joined.contains("[a2][a3]amix=inputs=2:normalize=0[aout]"));
    assert!(joined.contains("volume=0.8"));
    assert!(r.args.contains(&"[aout]".to_string()));
}

#[test]
fn single_audio_item_passes_through() {
    let mut vd = empty_details();
    vd.src = Some("https://e/v.mp4".to_string());
    let v = item(TrackType::Video, vd);
    let mut ad = empty_details();
    ad.src = Some("https://e/a.mp3".to_string());
    let mut a = item(TrackType::Audio, ad);
    a.trim = Trim { from: Some(500), to: None };
    a.display = Trim { from: Some(2000), to: None };
    let d = design_of(vec![v.clone(), a.clone()]);
    let assets = vec![(0usize, v, "/v.mp4".to_string()), (1usize, a, "/a.mp3".to_string())];
    let r = build_ffmpeg_command("/w", &d, &assets, &caps_sw(), &Vec::new()).unwrap();
    let joined = r.args.join(" ");
    assert!(joined.contains("[a2]anull[aout]"));
    assert!(!joined.contains("amix"));
    assert!(joined.contains(
        "[2:a]volume=1,atrim=start=0.500,asetpts=PTS-STARTPTS,adelay=2000:all=1"
    ));
}

#[test]
fn no_audio_maps_base_input_audio() {
    let mut vd = empty_details();
    vd.src = Some("https://e/v.mp4".to_string());
    let v = item(TrackType::Video, vd);
    let d = design_of(vec![v.clone()]);
    let assets = vec![(0usize, v, "/v.mp4".to_string())];
    let r = build_ffmpeg_command("/w", &d, &assets, &caps_sw(), &Vec::new()).unwrap();
    let pos = r.args.iter().position(|a| a == "0:a?").unwrap();
    assert_eq!(r.args[pos - 1], "-map");
}

#[test]
fn hardware_caps_pick_hardware_encoder() {
    let mut vd = empty_details();
    vd.src = Some("https://e/v.mp4".to_string());
    let v = item(TrackType::Video, vd);
    let d = design_of(vec![v.clone()]);
    let assets = vec![(0usize, v, "/v.mp4".to_string())];
    let r = build_ffmpeg_command("/w", &d, &assets, &BackendCaps { nvenc: true }, &Vec::new())
        .unwrap();
    let joined = r.args.join(" ");
    assert!(joined.contains("-hwaccel cuda"));
    assert!(joined.contains("-c:v h264_nvenc -preset p4"));
    assert!(!joined.contains("libx264"));
}

#[test]
fn text_overlay_with_font_and_colors() {
    let mut vd = empty_details();
    vd.src = Some("https://e/v.mp4".to_string());
    let v = item(TrackType::Video, vd);
    let mut td = empty_details();
    td.text = Some("hi: 'there'".to_string());
    td.color = Some("#FF0000".to_string());
    td.opacity_tenths = Some(500);
    td.font_size = Some(36);
    let mut t = item(TrackType::Text, td);
    t.id = Some("t1".to_string());
    let d = design_of(vec![v.clone(), t]);
    let assets = vec![(0usize, v, "/v.mp4".to_string())];
    let fonts = vec![("t1".to_string(), "/fonts/a.ttf".to_string())];
    let r = build_ffmpeg_command("/w", &d, &assets, &caps_sw(), &fonts).unwrap();
    let joined = r.args.join(" ");
    assert!(joined.contains(
        "drawtext=fontfile=/fonts/a.ttf:text='hi\\: \\'there\\'':fontsize=36:fontcolor=0xFF0000@0.5"
    ));
    assert!(joined.contains("[txtt1]"));
    assert!(r.args.contains(&"[txtt1]".to_string()));
}

#[test]
fn text_without_font_is_skipped() {
    let mut vd = empty_details();
    vd.src = Some("https://e/v.mp4".to_string());
    let v = item(TrackType::Video, vd);
    let mut td = empty_details();
    td.text = Some("hello".to_string());
    let mut t = item(TrackType::Text, td);
    t.id = Some("t1".to_string());
    let d = design_of(vec![v.clone(), t]);
    let assets = vec![(0usize, v, "/v.mp4".to_string())];
    let r = build_ffmpeg_command("/w", &d, &assets, &caps_sw(), &Vec::new()).unwrap();
    assert!(!r.args.join(" ").contains("drawtext"));
}

#[test]
fn escape_covers_the_three_special_characters() {
    assert_eq!(escape_text("a:b'c\\d"), "a\\:b\\'c\\\\d");
    assert_eq!(escape_text("plain"), "plain");
    assert_eq!(escape_text(""), "");
}

#[test]
fn options_override_design() {
    let d = Design {
        id: None,
        track_items: Vec::new(),
        track_items_map: Vec::new(),
        size: Some(Size { width: 100, height: 200 }),
        fps: Some(24),
    };
    let merged = merge_options(
        d,
        Some(RenderOptions { fps: Some(60), size: None, format: None }),
    );
    assert_eq!(merged.fps, Some(60));
    assert_eq!(merged.size.unwrap().width, 100);
}

#[test]
fn compile_plan_records_visibility_window() {
    let mut det = empty_details();
    det.src = Some("https://e/v.mp4".to_string());
    let mut v = item(TrackType::Video, det);
    v.display = Trim { from: Some(1500), to: Some(6500) };
    let d = design_of(vec![v.clone()]);
    let assets = vec![(0usize, v, "/v.mp4".to_string())];
    let plan = compile_plan("/w", &d, &assets, &caps_sw(), &Vec::new()).unwrap();
    assert_eq!(plan.visuals.len(), 1);
    assert_eq!(plan.visuals[0].start_ms, 1500);
    assert_eq!(plan.visuals[0].end_ms, 6500);
    assert_eq!(plan.duration_ms, 6500);
}
