use render_core::names::DirectoryListing;
use render_core::organize::{batch_rename, AssetKind};
use render_core::requests::{
    asset_kind_of, check_batch_request, is_blank_text, parse_asset_kind, parse_codec,
    rename_pattern_for, stitch_options_for, subtitle_batch_plan, RenameOptions, StitchRequest,
    SubtitleBatchRequest,
};
use render_core::stitch::VideoCodec;
use render_core::style::{Quantity, Sign};
use render_core::ErrorKind;

fn request() -> StitchRequest {
    StitchRequest {
        audio_directory: "audio".to_string(),
        image_directory: "images".to_string(),
        subtitle_directory: None,
        output_directory: "out".to_string(),
        frame_rate: Quantity {
            sign: Sign::Positive,
            text: "24".to_string(),
        },
        codec: None,
        audio_bitrate: None,
        burn_subtitles: true,
        subtitle_style: None,
    }
}

fn batch_request() -> SubtitleBatchRequest {
    SubtitleBatchRequest {
        audio_directory: "audio".to_string(),
        subtitle_directory: None,
        model_id: "ggml-base".to_string(),
        language: None,
        translate_to_english: false,
        threads: None,
    }
}

fn first_name(kind: AssetKind, options: Option<&RenameOptions>) -> String {
    let listing = DirectoryListing {
        files: vec!["x.JPG".to_string()],
        others: Vec::new(),
    };
    let pattern = rename_pattern_for(kind, options);
    batch_rename("", Some(&listing), &pattern).unwrap()[0]
        .renamed
        .clone()
}

#[test]
fn asset_kind_is_read_in_any_case() {
    assert_eq!(parse_asset_kind("audio").unwrap(), AssetKind::Audio);
    assert_eq!(parse_asset_kind("IMAGE").unwrap(), AssetKind::Image);
    assert_eq!(parse_asset_kind("Audio").unwrap(), AssetKind::Audio);
    let error = parse_asset_kind("Video").unwrap_err();
    assert_eq!(error.kind, ErrorKind::Validation);
    assert_eq!(
        error.message,
        "Unsupported asset kind 'video'. Use 'audio' or 'image'."
    );
    assert!(parse_asset_kind(" audio").is_err());
    assert!(parse_asset_kind("").is_err());
    assert!(asset_kind_of("AUDIO").is_err());
    assert_eq!(asset_kind_of("image").unwrap(), AssetKind::Image);
}

#[test]
fn rename_options_replace_the_defaults() {
    assert_eq!(first_name(AssetKind::Image, None), "image_001.jpg");
    let options = RenameOptions {
        prefix: Some("shot".to_string()),
        separator: None,
        start_index: Some(0),
        pad_width: None,
        lowercase_extension: Some(false),
    };
    assert_eq!(first_name(AssetKind::Image, Some(&options)), "shot_001.JPG");
    let options = RenameOptions {
        prefix: None,
        separator: Some("-".to_string()),
        start_index: Some(41),
        pad_width: Some(0),
        lowercase_extension: None,
    };
    assert_eq!(first_name(AssetKind::Audio, Some(&options)), "audio-41.jpg");
}

#[test]
fn codec_is_h264_unless_hevc_is_named() {
    assert_eq!(parse_codec(Some("hevc")), VideoCodec::Hevc);
    assert_eq!(parse_codec(Some("HEVC")), VideoCodec::H264);
    assert_eq!(parse_codec(Some("h264")), VideoCodec::H264);
    assert_eq!(parse_codec(Some("")), VideoCodec::H264);
    assert_eq!(parse_codec(None), VideoCodec::H264);
}

#[test]
fn blank_means_nothing_but_whitespace() {
    assert!(is_blank_text(""));
    assert!(is_blank_text(" \t\r\n\u{a0}"));
    assert!(!is_blank_text(" x "));
    assert!(!is_blank_text("\u{200b}"));
}

#[test]
fn stitch_request_fills_in_what_is_left_open() {
    let options = stitch_options_for(request()).unwrap();
    assert_eq!(options.audio_dir, "audio");
    assert_eq!(options.image_dir, "images");
    assert_eq!(options.subtitle_dir, None);
    assert_eq!(options.output_dir, "out");
    assert_eq!(options.frame_rate.text, "24");
    assert_eq!(options.codec, VideoCodec::H264);
    assert_eq!(options.audio_bitrate, "192k");
    assert!(options.burn_subtitles);
    assert!(options.subtitle_style.is_none());

    let mut asked = request();
    asked.subtitle_directory = Some("  ".to_string());
    asked.codec = Some("hevc".to_string());
    asked.audio_bitrate = Some(" ".to_string());
    let options = stitch_options_for(asked).unwrap();
    assert_eq!(options.subtitle_dir, None);
    assert_eq!(options.codec, VideoCodec::Hevc);
    assert_eq!(options.audio_bitrate, "192k");

    let mut asked = request();
    asked.subtitle_directory = Some("subs".to_string());
    asked.audio_bitrate = Some("96k".to_string());
    asked.burn_subtitles = false;
    let options = stitch_options_for(asked).unwrap();
    assert_eq!(options.subtitle_dir.as_deref(), Some("subs"));
    assert_eq!(options.audio_bitrate, "96k");
    assert!(!options.burn_subtitles);
}

#[test]
fn stitch_request_needs_its_directories_and_a_frame_rate() {
    let mut asked = request();
    asked.audio_directory = "  ".to_string();
    asked.image_directory = String::new();
    let error = stitch_options_for(asked).unwrap_err();
    assert_eq!(error.kind, ErrorKind::Validation);
    assert_eq!(error.message, "Audio directory is required.");

    let mut asked = request();
    asked.image_directory = "\t".to_string();
    asked.output_directory = String::new();
    assert_eq!(
        stitch_options_for(asked).unwrap_err().message,
        "Image directory is required."
    );

    let mut asked = request();
    asked.output_directory = String::new();
    asked.frame_rate.sign = Sign::Zero;
    assert_eq!(
        stitch_options_for(asked).unwrap_err().message,
        "Output directory is required."
    );

    let mut asked = request();
    asked.frame_rate.sign = Sign::Negative;
    let error = stitch_options_for(asked).unwrap_err();
    assert_eq!(error.kind, ErrorKind::Validation);
    assert_eq!(error.message, "Frame rate must be greater than zero.");

    let mut asked = request();
    asked.frame_rate.sign = Sign::Unordered;
    assert!(stitch_options_for(asked).is_ok());
}

#[test]
fn batch_request_needs_an_audio_directory() {
    assert!(check_batch_request(&batch_request()).is_ok());
    let mut asked = batch_request();
    asked.audio_directory = " ".to_string();
    let error = check_batch_request(&asked).unwrap_err();
    assert_eq!(error.kind, ErrorKind::Validation);
    assert_eq!(error.message, "Audio directory is required.");
}

#[test]
fn batch_plan_fills_in_what_is_left_open() {
    let plan = subtitle_batch_plan(batch_request(), "models/ggml-base.bin");
    assert_eq!(plan.subtitle_directory, "audio/subtitles");
    assert_eq!(plan.options.model_path, "models/ggml-base.bin");
    assert_eq!(plan.options.language, None);
    assert!(!plan.options.translate_to_english);
    assert_eq!(plan.options.threads, None);
    assert_eq!(plan.options.output_path, None);

    let mut asked = batch_request();
    asked.subtitle_directory = Some("subs".to_string());
    asked.language = Some("en".to_string());
    asked.translate_to_english = true;
    asked.threads = Some(0);
    let plan = subtitle_batch_plan(asked, "m.bin");
    assert_eq!(plan.subtitle_directory, "subs");
    assert_eq!(plan.options.language.as_deref(), Some("en"));
    assert!(plan.options.translate_to_english);
    assert_eq!(plan.options.threads, Some(1));

    let mut asked = batch_request();
    asked.subtitle_directory = Some(" ".to_string());
    asked.language = Some("\n".to_string());
    asked.threads = Some(8);
    let plan = subtitle_batch_plan(asked, "m.bin");
    assert_eq!(plan.subtitle_directory, "audio/subtitles");
    assert_eq!(plan.options.language, None);
    assert_eq!(plan.options.threads, Some(8));
}
