use render_core::encode::{
    build_filter_chain, encoder_candidates, encoder_failure, run_ffmpeg_with_encoder,
    AttemptOutcome, Progress, StitchRun,
};
use render_core::names::{DirectoryListing, MediaKind};
use render_core::stitch::{
    check_frame_rate, collect_indexed_files, stitch_assets, StitchJobResult, StitchOptions,
    VideoCodec,
};
use render_core::style::{
    ass_color_from_hex, build_force_style, escape_force_style, escape_force_style_value,
    escape_subtitle_path, Quantity, Sign, SubtitleBurnStyle,
};
use render_core::{ErrorKind, PipelineError};

fn listing_of(files: &[&str]) -> DirectoryListing {
    DirectoryListing {
        files: files.iter().map(|name| name.to_string()).collect(),
        others: Vec::new(),
    }
}

fn quantity(sign: Sign, text: &str) -> Quantity {
    Quantity {
        sign,
        text: text.to_string(),
    }
}

fn options() -> StitchOptions {
    StitchOptions {
        audio_dir: "audio".to_string(),
        image_dir: "images".to_string(),
        subtitle_dir: None,
        output_dir: "out".to_string(),
        frame_rate: quantity(Sign::Positive, "30"),
        codec: VideoCodec::H264,
        audio_bitrate: "192k".to_string(),
        burn_subtitles: false,
        subtitle_style: None,
    }
}

fn empty_style() -> SubtitleBurnStyle {
    SubtitleBurnStyle {
        font_name: None,
        font_size: None,
        primary_color: None,
        outline_color: None,
        outline_width: None,
        letter_spacing: None,
    }
}

fn scene(subtitle: Option<&str>) -> StitchJobResult {
    StitchJobResult {
        index: 1,
        audio_path: "audio/a1.wav".to_string(),
        image_path: "images/i1.png".to_string(),
        subtitle_path: subtitle.map(|s| s.to_string()),
        output_path: "out/scene_001.mp4".to_string(),
    }
}

fn failure(message: &str) -> PipelineError {
    PipelineError::new(ErrorKind::ExternalTool, message.to_string())
}

#[test]
fn only_shared_indices_become_scenes() {
    let audio = listing_of(&["a3.wav", "a1.wav", "a2.mp3"]);
    let images = listing_of(&["i1.png", "i4.jpg", "i2.png"]);
    let scenes = stitch_assets(&options(), Some(&audio), Some(&images), None).unwrap();
    let indices: Vec<u32> = scenes.iter().map(|s| s.index).collect();
    assert_eq!(indices, vec![1, 2]);
    assert_eq!(scenes[0].audio_path, "audio/a1.wav");
    assert_eq!(scenes[0].image_path, "images/i1.png");
    assert_eq!(scenes[0].subtitle_path, None);
    assert_eq!(scenes[0].output_path, "out/scene_001.mp4");
    assert_eq!(scenes[1].audio_path, "audio/a2.mp3");
    assert_eq!(scenes[1].image_path, "images/i2.png");
    assert_eq!(scenes[1].output_path, "out/scene_002.mp4");
}

#[test]
fn no_shared_index_is_not_found() {
    let audio = listing_of(&["a5.wav"]);
    let images = listing_of(&["i6.png"]);
    let error = stitch_assets(&options(), Some(&audio), Some(&images), None).unwrap_err();
    assert_eq!(error.kind, ErrorKind::NotFound);
    assert_eq!(
        error.message,
        "No matching audio/image pairs found between 'audio' and 'images'."
    );
}

#[test]
fn no_audio_is_not_found() {
    let audio = listing_of(&["cover.wav", "a1.txt", "a2.png"]);
    let images = listing_of(&["i1.png"]);
    let error = stitch_assets(&options(), Some(&audio), Some(&images), None).unwrap_err();
    assert_eq!(error.kind, ErrorKind::NotFound);
    assert_eq!(
        error.message,
        "No audio files (.wav/.mp3/.m4a/.aac/.flac/.ogg) were found in 'audio'."
    );
}

#[test]
fn frame_rate_has_to_be_above_zero() {
    let audio = listing_of(&["a1.wav"]);
    let images = listing_of(&["i1.png"]);
    for (sign, text) in [(Sign::Zero, "0"), (Sign::Negative, "-1"), (Sign::Zero, "-0")] {
        let mut opts = options();
        opts.frame_rate = quantity(sign, text);
        let error = stitch_assets(&opts, None, Some(&images), None).unwrap_err();
        assert_eq!(error.kind, ErrorKind::Validation);
        assert_eq!(error.message, "Frame rate must be greater than zero");
    }
    let mut opts = options();
    opts.frame_rate = quantity(Sign::Unordered, "NaN");
    assert!(stitch_assets(&opts, Some(&audio), Some(&images), None).is_ok());
}

#[test]
fn frame_rate_is_checked_on_its_own() {
    for (sign, text) in [(Sign::Zero, "0"), (Sign::Negative, "-24")] {
        let mut opts = options();
        opts.frame_rate = quantity(sign, text);
        let error = check_frame_rate(&opts).unwrap_err();
        assert_eq!(error.kind, ErrorKind::Validation);
        assert_eq!(error.message, "Frame rate must be greater than zero");
    }
    for (sign, text) in [(Sign::Positive, "0.5"), (Sign::Unordered, "NaN")] {
        let mut opts = options();
        opts.frame_rate = quantity(sign, text);
        assert!(check_frame_rate(&opts).is_ok());
    }
}

#[test]
fn files_without_digits_at_the_end_of_the_stem_take_no_part() {
    let audio = listing_of(&["take03_final.mp3", "a1.wav", "2b.wav", "a3 .wav"]);
    let images = listing_of(&["i1.png", "i2.png", "i3.png", "clip7b.png"]);
    let scenes = stitch_assets(&options(), Some(&audio), Some(&images), None).unwrap();
    let indices: Vec<u32> = scenes.iter().map(|s| s.index).collect();
    assert_eq!(indices, vec![1]);
    assert_eq!(scenes[0].audio_path, "audio/a1.wav");

    let files = collect_indexed_files("d", Some(&images), MediaKind::Image).unwrap();
    let entered: Vec<u32> = files.keys().copied().collect();
    assert_eq!(entered, vec![1, 2, 3]);

    let audio = listing_of(&["take03_final.mp3", "7b.wav"]);
    let error = stitch_assets(&options(), Some(&audio), Some(&images), None).unwrap_err();
    assert_eq!(error.kind, ErrorKind::NotFound);
    assert_eq!(
        error.message,
        "No audio files (.wav/.mp3/.m4a/.aac/.flac/.ogg) were found in 'audio'."
    );
}

#[test]
fn missing_directories_are_not_found_in_order() {
    let audio = listing_of(&["a1.wav"]);
    let images = listing_of(&["i1.png"]);
    let error = stitch_assets(&options(), None, None, None).unwrap_err();
    assert_eq!(error.kind, ErrorKind::NotFound);
    assert_eq!(error.message, "Directory 'audio' does not exist");
    let error = stitch_assets(&options(), Some(&audio), None, None).unwrap_err();
    assert_eq!(error.message, "Directory 'images' does not exist");
    let mut opts = options();
    opts.subtitle_dir = Some("subs".to_string());
    let error = stitch_assets(&opts, Some(&audio), Some(&images), None).unwrap_err();
    assert_eq!(error.kind, ErrorKind::NotFound);
    assert_eq!(error.message, "Directory 'subs' does not exist");
    assert!(stitch_assets(&options(), Some(&audio), Some(&images), None).is_ok());
}

#[test]
fn subtitles_go_with_their_index_where_there_are_any() {
    let audio = listing_of(&["a1.wav", "a2.wav"]);
    let images = listing_of(&["i1.png", "i2.png"]);
    let subtitles = listing_of(&["s2.srt", "s3.srt", "s1.txt"]);
    let mut opts = options();
    opts.subtitle_dir = Some("subs".to_string());
    let scenes = stitch_assets(&opts, Some(&audio), Some(&images), Some(&subtitles)).unwrap();
    assert_eq!(scenes.len(), 2);
    assert_eq!(scenes[0].subtitle_path, None);
    assert_eq!(scenes[1].subtitle_path.as_deref(), Some("subs/s2.srt"));
    let scenes = stitch_assets(&options(), Some(&audio), Some(&images), Some(&subtitles)).unwrap();
    assert_eq!(scenes[1].subtitle_path, None);
}

#[test]
fn later_file_wins_an_index() {
    let listing = listing_of(&["b7.wav", "a7.wav", "c07.mp3", "d7.txt", "e8.wav"]);
    let files = collect_indexed_files("dir", Some(&listing), MediaKind::Audio).unwrap();
    assert_eq!(files.len(), 2);
    assert_eq!(files.get(&7).map(|s| s.as_str()), Some("dir/c07.mp3"));
    assert_eq!(files.get(&8).map(|s| s.as_str()), Some("dir/e8.wav"));
    let error = collect_indexed_files("dir", None, MediaKind::Audio).unwrap_err();
    assert_eq!(error.kind, ErrorKind::NotFound);
}

#[test]
fn scene_names_keep_three_places_at_least() {
    let audio = listing_of(&["a7.wav", "a1234.wav", "a0.wav"]);
    let images = listing_of(&["i7.png", "i1234.png", "i0.png"]);
    let scenes = stitch_assets(&options(), Some(&audio), Some(&images), None).unwrap();
    let outputs: Vec<&str> = scenes.iter().map(|s| s.output_path.as_str()).collect();
    assert_eq!(
        outputs,
        vec!["out/scene_000.mp4", "out/scene_007.mp4", "out/scene_1234.mp4"]
    );
}

#[test]
fn hardware_encoder_comes_first() {
    let candidates = encoder_candidates(VideoCodec::H264);
    assert_eq!(candidates.len(), 2);
    assert_eq!(candidates[0].encoder, "h264_videotoolbox");
    assert_eq!(candidates[0].label, "h264_videotoolbox");
    assert_eq!(candidates[0].pixel_format, "yuv420p");
    assert!(!candidates[0].is_fallback);
    assert_eq!(candidates[1].encoder, "libx264");
    assert!(candidates[1].is_fallback);
    let candidates = encoder_candidates(VideoCodec::Hevc);
    assert_eq!(candidates[0].encoder, "hevc_videotoolbox");
    assert_eq!(candidates[1].encoder, "libx265");
    assert_eq!(candidates[1].pixel_format, "yuv420p");
    assert!(candidates[1].is_fallback);
}

#[test]
fn arguments_without_subtitles() {
    let candidates = encoder_candidates(VideoCodec::H264);
    let arguments = run_ffmpeg_with_encoder(&candidates[1], &scene(None), &options());
    assert_eq!(
        arguments,
        vec![
            "-y", "-hide_banner", "-loglevel", "error", "-loop", "1", "-framerate", "30", "-i",
            "images/i1.png", "-i", "audio/a1.wav", "-vf", "fps=30", "-c:v", "libx264",
            "-pix_fmt", "yuv420p", "-b:v", "6000k", "-c:a", "aac", "-b:a", "192k", "-shortest",
            "-movflags", "faststart", "-map", "0:v:0", "-map", "1:a:0", "out/scene_001.mp4",
        ]
    );
}

#[test]
fn soft_subtitles_get_a_stream_of_their_own() {
    let candidates = encoder_candidates(VideoCodec::Hevc);
    let arguments = run_ffmpeg_with_encoder(&candidates[0], &scene(Some("subs/s1.srt")), &options());
    assert_eq!(
        arguments,
        vec![
            "-y", "-hide_banner", "-loglevel", "error", "-loop", "1", "-framerate", "30", "-i",
            "images/i1.png", "-i", "audio/a1.wav", "-i", "subs/s1.srt", "-vf", "fps=30", "-c:v",
            "hevc_videotoolbox", "-pix_fmt", "yuv420p", "-b:v", "6000k", "-c:a", "aac", "-b:a",
            "192k", "-shortest", "-movflags", "faststart", "-map", "0:v:0", "-map", "1:a:0",
            "-map", "2:s:0", "-c:s", "mov_text", "out/scene_001.mp4",
        ]
    );
}

#[test]
fn burnt_subtitles_go_into_the_filter_chain() {
    let mut opts = options();
    opts.burn_subtitles = true;
    opts.frame_rate = quantity(Sign::Positive, "29.97");
    let candidates = encoder_candidates(VideoCodec::H264);
    let arguments = run_ffmpeg_with_encoder(&candidates[0], &scene(Some("subs/s1.srt")), &opts);
    assert_eq!(arguments[7], "29.97");
    assert_eq!(arguments[12], "-i");
    assert_eq!(arguments[13], "subs/s1.srt");
    assert_eq!(arguments[15], "fps=29.97,subtitles='subs/s1.srt'");
    assert!(!arguments.contains(&"mov_text".to_string()));
    assert_eq!(arguments.last().unwrap(), "out/scene_001.mp4");
    assert_eq!(arguments.len(), 34);

    let without = run_ffmpeg_with_encoder(&candidates[0], &scene(None), &opts);
    assert_eq!(without[13], "fps=29.97");
}

#[test]
fn filter_chain_carries_the_style() {
    let mut opts = options();
    opts.burn_subtitles = true;
    let mut style = empty_style();
    style.font_name = Some("  Noto Sans, Bold ".to_string());
    style.font_size = Some(quantity(Sign::Positive, "24"));
    style.primary_color = Some("#FFCC00".to_string());
    opts.subtitle_style = Some(style);
    assert_eq!(
        build_filter_chain(&opts, Some("C:\\subs\\it's, 1.srt")),
        "fps=30,subtitles='C\\:\\\\subs\\\\it\\'s\\, 1.srt':force_style='FontName=Noto Sans\\\\, Bold,FontSize=24,PrimaryColour=&H0000CCFF&'"
    );
    opts.subtitle_style = Some(empty_style());
    assert_eq!(build_filter_chain(&opts, Some("s.srt")), "fps=30,subtitles='s.srt'");
    assert_eq!(build_filter_chain(&opts, None), "fps=30");
    opts.burn_subtitles = false;
    assert_eq!(build_filter_chain(&opts, Some("s.srt")), "fps=30");
}

#[test]
fn escaping_puts_a_backslash_before_special_characters() {
    assert_eq!(escape_subtitle_path("plain.srt"), "'plain.srt'");
    assert_eq!(escape_subtitle_path("a\\b:c\"d'e,f"), "'a\\\\b\\:c\\\"d\\'e\\,f'");
    assert_eq!(escape_subtitle_path(""), "''");
    assert_eq!(escape_force_style("a\\b'c:d,e\""), "'a\\\\b\\'c\\:d,e\"'");
    assert_eq!(escape_force_style_value("a,b:c'd\\e\""), "a\\,b\\:c\\'d\\\\e\\\"");
    assert_eq!(escape_force_style_value("a\\b\"c"), "a\\\\b\\\"c");
    assert_eq!(escape_force_style_value("Arial"), "Arial");
    assert_eq!(escape_force_style_value(""), "");
}

#[test]
fn colours_turn_from_rgb_to_bgr() {
    assert_eq!(ass_color_from_hex("#FFCC00").as_deref(), Some("&H0000CCFF&"));
    assert_eq!(ass_color_from_hex("112233").as_deref(), Some("&H00332211&"));
    assert_eq!(ass_color_from_hex("  ##aBcDeF \n").as_deref(), Some("&H00EFCDAB&"));
    assert_eq!(ass_color_from_hex("#000000").as_deref(), Some("&H00000000&"));
    for bad in ["+1+a+F", "", "#", "#FFF", "#FFCC0", "#FFCC000", "#GGCC00", "#FF CC0", "FFCC0#", "-1-1-1", "a+a+a+", "#ÿ1234", "ｆｆｆｆｆｆ"] {
        assert_eq!(ass_color_from_hex(bad), None, "{}", bad);
    }
}

#[test]
fn style_clause_holds_only_what_is_set() {
    assert_eq!(build_force_style(&empty_style()), None);

    let mut style = empty_style();
    style.font_name = Some(" Arial ".to_string());
    style.font_size = Some(quantity(Sign::Positive, "48"));
    style.primary_color = Some("#FFFFFF".to_string());
    style.outline_color = Some("#000000".to_string());
    style.outline_width = Some(quantity(Sign::Positive, "2.5"));
    style.letter_spacing = Some(quantity(Sign::Negative, "-1"));
    assert_eq!(
        build_force_style(&style).as_deref(),
        Some("FontName=Arial,FontSize=48,PrimaryColour=&H00FFFFFF&,OutlineColour=&H00000000&,Outline=2.5,Spacing=-1")
    );

    let mut style = empty_style();
    style.font_name = Some("   ".to_string());
    style.font_size = Some(quantity(Sign::Zero, "0"));
    style.primary_color = Some("red".to_string());
    style.outline_width = Some(quantity(Sign::Negative, "-2"));
    style.letter_spacing = Some(quantity(Sign::Zero, "0"));
    assert_eq!(build_force_style(&style), None);

    let mut style = empty_style();
    style.font_size = Some(quantity(Sign::Unordered, "NaN"));
    style.outline_width = Some(quantity(Sign::Zero, "0"));
    style.letter_spacing = Some(quantity(Sign::Unordered, "NaN"));
    assert_eq!(build_force_style(&style).as_deref(), Some("Outline=0,Spacing=NaN"));

    let mut style = empty_style();
    style.font_name = Some("A,B:C'D".to_string());
    assert_eq!(build_force_style(&style).as_deref(), Some("FontName=A\\,B\\:C\\'D"));
}

#[test]
fn encoder_failure_tells_status_and_output() {
    let error = encoder_failure("libx264", Some(1), "  bad input\n");
    assert_eq!(error.kind, ErrorKind::ExternalTool);
    assert_eq!(error.message, "Encoder 'libx264' failed with status Some(1)\nbad input");
    let error = encoder_failure("x", None, "");
    assert_eq!(error.message, "Encoder 'x' failed with status None\n");
    let error = encoder_failure("x", Some(-9), "a\nb");
    assert_eq!(error.message, "Encoder 'x' failed with status Some(-9)\na\nb");
    assert_eq!(error.to_text(), error.message);
}

#[test]
fn fallback_encoder_is_tried_after_a_failure() {
    let mut run = StitchRun::start(vec![scene(None), scene(Some("s.srt"))], VideoCodec::H264);
    {
        let (current, candidate) = run.current().unwrap();
        assert_eq!(current.subtitle_path, None);
        assert_eq!(candidate.encoder, "h264_videotoolbox");
    }
    assert_eq!(run.record(AttemptOutcome::Failed(failure("no hardware"))), Progress::NextEncoder);
    assert_eq!(run.current().unwrap().1.encoder, "libx264");
    assert_eq!(run.current().unwrap().0.subtitle_path, None);
    assert_eq!(
        run.record(AttemptOutcome::Succeeded),
        Progress::SceneDone { used_fallback: true }
    );
    assert_eq!(run.current().unwrap().1.encoder, "h264_videotoolbox");
    assert_eq!(run.current().unwrap().0.subtitle_path.as_deref(), Some("s.srt"));
    assert_eq!(
        run.record(AttemptOutcome::Succeeded),
        Progress::SceneDone { used_fallback: false }
    );
    assert!(run.current().is_none());
    assert_eq!(run.record(AttemptOutcome::Succeeded), Progress::Ignored);
    let written = run.finish().unwrap();
    assert_eq!(written.len(), 2);
    assert_eq!(written[1].subtitle_path.as_deref(), Some("s.srt"));
}

#[test]
fn last_failure_ends_the_whole_run() {
    let mut run = StitchRun::start(vec![scene(None), scene(None), scene(None)], VideoCodec::Hevc);
    assert_eq!(
        run.record(AttemptOutcome::Succeeded),
        Progress::SceneDone { used_fallback: false }
    );
    assert_eq!(run.record(AttemptOutcome::Failed(failure("first"))), Progress::NextEncoder);
    assert_eq!(run.record(AttemptOutcome::Failed(failure("second"))), Progress::RunFailed);
    assert!(run.current().is_none());
    assert_eq!(run.record(AttemptOutcome::Succeeded), Progress::Ignored);
    let error = run.finish().unwrap_err();
    assert_eq!(error.kind, ErrorKind::ExternalTool);
    assert_eq!(error.message, "second");
}

#[test]
fn run_without_scenes_is_over_at_once() {
    let mut run = StitchRun::start(Vec::new(), VideoCodec::H264);
    assert!(run.current().is_none());
    assert_eq!(run.record(AttemptOutcome::Failed(failure("x"))), Progress::Ignored);
    assert!(run.finish().unwrap().is_empty());
}

#[test]
fn unfinished_run_holds_the_scenes_written_so_far() {
    let mut run = StitchRun::start(vec![scene(None), scene(Some("s.srt"))], VideoCodec::H264);
    run.record(AttemptOutcome::Succeeded);
    run.record(AttemptOutcome::Failed(failure("x")));
    let written = run.finish().unwrap();
    assert_eq!(written.len(), 1);
    assert_eq!(written[0].subtitle_path, None);
}

#[test]
fn files_are_entered_in_the_order_given() {
    let sorted = vec!["x7.wav".to_string(), "y7.wav".to_string(), "z8.png".to_string()];
    let files = render_core::stitch::index_files("d", &sorted, MediaKind::Audio);
    assert_eq!(files.len(), 1);
    assert_eq!(files.get(&7).map(|s| s.as_str()), Some("d/y7.wav"));
    let files = render_core::stitch::index_files("d", &sorted, MediaKind::Image);
    assert_eq!(files.get(&8).map(|s| s.as_str()), Some("d/z8.png"));
    assert!(render_core::stitch::index_files("d", &Vec::new(), MediaKind::Image).is_empty());
}

#[test]
fn maps_are_paired_by_index() {
    let mut audio = std::collections::BTreeMap::new();
    let mut images = std::collections::BTreeMap::new();
    let mut subtitles = std::collections::BTreeMap::new();
    for index in [9u32, 2, 5] {
        audio.insert(index, format!("a{}", index));
    }
    for index in [5u32, 9, 1] {
        images.insert(index, format!("i{}", index));
    }
    subtitles.insert(9u32, "s9".to_string());
    subtitles.insert(2u32, "s2".to_string());
    let scenes = render_core::stitch::pair_by_index(&audio, &images, &subtitles, "o");
    assert_eq!(scenes.len(), 2);
    assert_eq!(scenes[0].index, 5);
    assert_eq!(scenes[0].audio_path, "a5");
    assert_eq!(scenes[0].image_path, "i5");
    assert_eq!(scenes[0].subtitle_path, None);
    assert_eq!(scenes[0].output_path, "o/scene_005.mp4");
    assert_eq!(scenes[1].index, 9);
    assert_eq!(scenes[1].subtitle_path.as_deref(), Some("s9"));
    let none = render_core::stitch::pair_by_index(
        &std::collections::BTreeMap::new(),
        &images,
        &subtitles,
        "o",
    );
    assert!(none.is_empty());
}

#[test]
fn colours_are_read_without_trimming() {
    let chars = |text: &str| text.chars().collect::<Vec<char>>();
    assert_eq!(
        render_core::style::read_colour(&chars("#102030")).as_deref(),
        Some("&H00302010&")
    );
    assert_eq!(render_core::style::read_colour(&chars(" #102030")), None);
    assert_eq!(render_core::style::read_colour(&chars("#102030 ")), None);
}
