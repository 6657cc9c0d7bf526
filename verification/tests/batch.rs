use render_core::batch::{generate_subtitles_batch, skip_notice, FileEvent};
use render_core::names::DirectoryListing;
use render_core::{ErrorKind, PipelineError};

fn listing_of(files: &[&str]) -> DirectoryListing {
    DirectoryListing {
        files: files.iter().map(|name| name.to_string()).collect(),
        others: Vec::new(),
    }
}

fn completed(lines: &[&str]) -> FileEvent {
    FileEvent::Completed {
        preview_lines: lines.iter().map(|line| line.to_string()).collect(),
    }
}

#[test]
fn batch_takes_audio_files_in_natural_order() {
    let listing = listing_of(&["t10.wav", "notes.txt", "t2.MP3", "t1.flac", "cover.png"]);
    let mut run = generate_subtitles_batch("in", Some(&listing), "out").unwrap();
    let mut seen = Vec::new();
    while let Some(job) = run.current() {
        seen.push((
            job.audio_name.clone(),
            job.audio_path.clone(),
            job.subtitle_path.clone(),
        ));
        run.record(completed(&["1"]));
    }
    assert_eq!(
        seen,
        vec![
            ("t1.flac".to_string(), "in/t1.flac".to_string(), "out/t1.srt".to_string()),
            ("t2.MP3".to_string(), "in/t2.MP3".to_string(), "out/t2.srt".to_string()),
            ("t10.wav".to_string(), "in/t10.wav".to_string(), "out/t10.srt".to_string()),
        ]
    );
}

#[test]
fn skipped_file_does_not_fail_the_batch() {
    let listing = listing_of(&["a1.wav", "a2.wav", "a3.wav"]);
    let mut run = generate_subtitles_batch("in", Some(&listing), "out").unwrap();
    run.record(completed(&["1", "00:00:00,000 --> 00:00:01,000", "one"]));
    run.record(FileEvent::Skipped);
    run.record(completed(&["1"]));
    assert!(run.current().is_none());
    let items = run.finish().unwrap();
    assert_eq!(items.len(), 2);
    assert_eq!(items[0].audio_path, "in/a1.wav");
    assert_eq!(items[0].subtitle_path.as_deref(), Some("out/a1.srt"));
    assert_eq!(
        items[0].preview_lines,
        vec!["1", "00:00:00,000 --> 00:00:01,000", "one"]
    );
    assert_eq!(items[1].audio_path, "in/a3.wav");
    assert_eq!(items[1].subtitle_path.as_deref(), Some("out/a3.srt"));
}

#[test]
fn batch_fails_when_every_file_is_skipped() {
    let listing = listing_of(&["a1.wav", "a2.wav", "a3.wav"]);
    let mut run = generate_subtitles_batch("in", Some(&listing), "out").unwrap();
    run.record(FileEvent::Skipped);
    run.record(FileEvent::Skipped);
    run.record(FileEvent::Skipped);
    assert!(run.current().is_none());
    let error = run.finish().unwrap_err();
    assert_eq!(error.kind, ErrorKind::NotFound);
    assert_eq!(
        error.message,
        "No supported audio files (wav/mp3/m4a/aac/flac/ogg) were found in 'in'."
    );
}

#[test]
fn batch_without_audio_files_is_not_found() {
    let listing = listing_of(&["readme.md"]);
    let run = generate_subtitles_batch("in", Some(&listing), "out").unwrap();
    assert!(run.current().is_none());
    assert_eq!(run.finish().unwrap_err().kind, ErrorKind::NotFound);
}

#[test]
fn missing_audio_directory_is_not_found() {
    let error = generate_subtitles_batch("nowhere", None, "out").unwrap_err();
    assert_eq!(error.kind, ErrorKind::NotFound);
    assert_eq!(error.message, "Audio directory 'nowhere' does not exist");
}

#[test]
fn engine_failure_ends_the_batch() {
    let listing = listing_of(&["a1.wav", "a2.wav", "a3.wav"]);
    let mut run = generate_subtitles_batch("in", Some(&listing), "out").unwrap();
    run.record(completed(&["1"]));
    run.record(FileEvent::Failed(PipelineError::new(
        ErrorKind::ExternalTool,
        "Whisper inference failed.".to_string(),
    )));
    assert!(run.current().is_none());
    run.record(completed(&["1"]));
    let error = run.finish().unwrap_err();
    assert_eq!(error.kind, ErrorKind::ExternalTool);
    assert_eq!(error.message, "Whisper inference failed.");
}

#[test]
fn skip_notice_names_file_and_reason() {
    assert_eq!(
        skip_notice("in/a2.wav", "unsupported layout"),
        "Skipping 'in/a2.wav' because it could not be converted: unsupported layout"
    );
}

#[test]
fn jobs_follow_the_order_given() {
    let sorted = vec!["b.wav".to_string(), "x.txt".to_string(), "a.tar.ogg".to_string()];
    let jobs = render_core::batch::plan_jobs("in/", &sorted, "");
    assert_eq!(jobs.len(), 2);
    assert_eq!(jobs[0].audio_name, "b.wav");
    assert_eq!(jobs[0].audio_path, "in/b.wav");
    assert_eq!(jobs[0].subtitle_path, "b.srt");
    assert_eq!(jobs[1].audio_name, "a.tar.ogg");
    assert_eq!(jobs[1].subtitle_path, "a.tar.srt");
}
