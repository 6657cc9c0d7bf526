use render_core::names::DirectoryListing;
use render_core::organize::{batch_rename, batch_rename_for_kind, AssetKind, RenamePattern};
use render_core::ErrorKind;
use std::path::Path;

fn listing_of(files: &[&str], others: &[&str]) -> DirectoryListing {
    DirectoryListing {
        files: files.iter().map(|name| name.to_string()).collect(),
        others: others.iter().map(|name| name.to_string()).collect(),
    }
}

fn file_name_of(path: &str) -> String {
    Path::new(path)
        .file_name()
        .unwrap()
        .to_string_lossy()
        .into_owned()
}

#[test]
fn renames_with_default_pattern() {
    let listing = listing_of(&["clipB.wav", "clipA.wav", "clipC.wav"], &[]);

    let results = batch_rename_for_kind("audio", Some(&listing), AssetKind::Audio, None).unwrap();
    let names: Vec<String> = results.iter().map(|res| file_name_of(&res.renamed)).collect();

    assert_eq!(
        names,
        vec!["audio_001.wav", "audio_002.wav", "audio_003.wav"]
    );
    let sources: Vec<String> = results.iter().map(|res| file_name_of(&res.original)).collect();
    assert_eq!(sources, vec!["clipA.wav", "clipB.wav", "clipC.wav"]);
    assert!(results.iter().all(|res| res.changed));
}

#[test]
fn honours_custom_separator() {
    let listing = listing_of(&["b.png", "a.png"], &[]);

    let pattern = RenamePattern::new("image")
        .with_separator(" ")
        .with_start_index(10)
        .with_pad_width(2);

    let results = batch_rename("images", Some(&listing), &pattern).unwrap();
    let names: Vec<String> = results.iter().map(|res| file_name_of(&res.renamed)).collect();

    assert_eq!(names, vec!["image 10.png", "image 11.png"]);
}

#[test]
fn skips_when_name_unchanged() {
    let listing = listing_of(&["audio_001.wav"], &[]);

    let pattern = RenamePattern::new("audio")
        .with_separator("_")
        .with_pad_width(3);
    let results = batch_rename("dir", Some(&listing), &pattern).unwrap();

    assert_eq!(results[0].changed, false);
    assert_eq!(file_name_of(&results[0].renamed), "audio_001.wav");
}

#[test]
fn missing_directory_is_not_found() {
    let pattern = RenamePattern::new("audio");
    let failure = batch_rename("/no/such/dir", None, &pattern).unwrap_err();
    assert_eq!(failure.error.kind, ErrorKind::NotFound);
    assert_eq!(failure.error.message, "Directory '/no/such/dir' does not exist");
    assert!(failure.completed.is_empty());
}

#[test]
fn empty_directory_gives_no_outcomes() {
    let listing = listing_of(&[], &["subdir"]);
    let results = batch_rename_for_kind("d", Some(&listing), AssetKind::Image, None).unwrap();
    assert!(results.is_empty());
}

#[test]
fn paths_are_joined_with_the_directory() {
    let listing = listing_of(&["x.PNG"], &[]);
    let results = batch_rename_for_kind("pics", Some(&listing), AssetKind::Image, None).unwrap();
    assert_eq!(results[0].original, "pics/x.PNG");
    assert_eq!(results[0].renamed, "pics/image_001.png");
    let results = batch_rename_for_kind("pics/", Some(&listing), AssetKind::Image, None).unwrap();
    assert_eq!(results[0].renamed, "pics/image_001.png");
    let results = batch_rename_for_kind("", Some(&listing), AssetKind::Image, None).unwrap();
    assert_eq!(results[0].renamed, "image_001.png");
}

#[test]
fn width_follows_the_number_of_files() {
    let names: Vec<String> = (0..12).map(|i| format!("take{}.wav", i)).collect();
    let refs: Vec<&str> = names.iter().map(|s| s.as_str()).collect();
    let listing = listing_of(&refs, &[]);
    let pattern = RenamePattern::new("t").with_separator("-");
    let results = batch_rename("d", Some(&listing), &pattern).unwrap();
    assert_eq!(results.len(), 12);
    assert_eq!(file_name_of(&results[0].renamed), "t-01.wav");
    assert_eq!(file_name_of(&results[9].renamed), "t-10.wav");
    assert_eq!(file_name_of(&results[11].renamed), "t-12.wav");
    assert_eq!(file_name_of(&results[2].original), "take2.wav");
    assert_eq!(file_name_of(&results[10].original), "take10.wav");
}

#[test]
fn zero_start_and_zero_width_are_raised_to_one() {
    let listing = listing_of(&["a.txt"], &[]);
    let pattern = RenamePattern::new("n")
        .with_separator("")
        .with_start_index(0)
        .with_pad_width(0);
    let results = batch_rename("d", Some(&listing), &pattern).unwrap();
    assert_eq!(file_name_of(&results[0].renamed), "n1.txt");
}

#[test]
fn extension_case_is_kept_unless_asked() {
    let listing = listing_of(&["a.WAV", "b", "c."], &[]);
    let keep = RenamePattern::new("k").with_prefix("p").with_separator("_");
    let results = batch_rename("d", Some(&listing), &keep).unwrap();
    let names: Vec<String> = results.iter().map(|res| file_name_of(&res.renamed)).collect();
    assert_eq!(names, vec!["p_1.WAV", "p_2", "p_3"]);
    let lower = keep.clone().lowercase_extension(true);
    let results = batch_rename("d", Some(&listing), &lower).unwrap();
    assert_eq!(file_name_of(&results[0].renamed), "p_1.wav");
}

#[test]
fn collision_stops_the_run_and_keeps_earlier_renames() {
    let listing = listing_of(&["a.wav", "b.wav", "c.wav"], &["audio_002.wav"]);
    let failure = batch_rename_for_kind("d", Some(&listing), AssetKind::Audio, None).unwrap_err();
    assert_eq!(failure.error.kind, ErrorKind::Collision);
    assert_eq!(
        failure.error.message,
        "Cannot rename 'd/b.wav' to 'd/audio_002.wav' because the destination already exists."
    );
    assert_eq!(failure.completed.len(), 1);
    assert_eq!(failure.completed[0].original, "d/a.wav");
    assert_eq!(failure.completed[0].renamed, "d/audio_001.wav");
    assert!(failure.completed[0].changed);
}

#[test]
fn collision_with_a_file_that_waits_for_its_turn() {
    let listing = listing_of(&["audio_002.wav", "zzz.wav"], &[]);
    let pattern = RenamePattern::new("audio").with_separator("_").with_pad_width(3).with_start_index(2);
    let results = batch_rename("d", Some(&listing), &pattern).unwrap();
    assert_eq!(results[0].changed, false);
    assert_eq!(results[1].renamed, "d/audio_003.wav");

    let listing = listing_of(&["a.wav", "audio_001.wav"], &[]);
    let failure = batch_rename_for_kind("d", Some(&listing), AssetKind::Audio, None).unwrap_err();
    assert_eq!(failure.error.kind, ErrorKind::Collision);
    assert!(failure.completed.is_empty());
}

#[test]
fn a_name_freed_earlier_in_the_run_is_not_a_collision() {
    let listing = listing_of(&["audio_002.wav", "audio_003.wav"], &[]);
    let results = batch_rename_for_kind("d", Some(&listing), AssetKind::Audio, None).unwrap();
    let names: Vec<String> = results.iter().map(|res| file_name_of(&res.renamed)).collect();
    assert_eq!(names, vec!["audio_001.wav", "audio_002.wav"]);
    assert!(results.iter().all(|res| res.changed));
}

#[test]
fn second_run_changes_nothing() {
    let listing = listing_of(&["clipB.wav", "clipA.wav", "clipC.wav"], &[]);
    let first = batch_rename_for_kind("d", Some(&listing), AssetKind::Audio, None).unwrap();
    let renamed: Vec<String> = first.iter().rev().map(|res| file_name_of(&res.renamed)).collect();
    let refs: Vec<&str> = renamed.iter().map(|s| s.as_str()).collect();
    let again = listing_of(&refs, &[]);
    let second = batch_rename_for_kind("d", Some(&again), AssetKind::Audio, None).unwrap();
    assert_eq!(second.len(), 3);
    for (before, after) in first.iter().zip(second.iter()) {
        assert!(!after.changed);
        assert_eq!(after.original, before.renamed);
        assert_eq!(after.renamed, before.renamed);
    }
}

#[test]
fn files_are_numbered_in_the_order_given() {
    let sorted = vec!["z.wav".to_string(), "a.wav".to_string(), "m.WAV".to_string()];
    let pattern = RenamePattern::new("n").with_separator("");
    let results = render_core::organize::rename_in_order("d", &sorted, &Vec::new(), &pattern).unwrap();
    let names: Vec<String> = results.iter().map(|res| file_name_of(&res.renamed)).collect();
    assert_eq!(names, vec!["n1.wav", "n2.wav", "n3.WAV"]);
    let sources: Vec<String> = results.iter().map(|res| file_name_of(&res.original)).collect();
    assert_eq!(sources, vec!["z.wav", "a.wav", "m.WAV"]);

    let taken = vec!["n2.wav".to_string()];
    let failure = render_core::organize::rename_in_order("d", &sorted, &taken, &pattern).unwrap_err();
    assert_eq!(failure.error.kind, ErrorKind::Collision);
    assert_eq!(failure.completed.len(), 1);
}

#[test]
fn second_run_is_not_idle_where_new_names_gain_an_extension() {
    let pattern = RenamePattern::new("v1.0");
    let first = batch_rename("", Some(&listing_of(&["README"], &[])), &pattern).unwrap();
    assert_eq!(first[0].renamed, "v1.0 1");
    let second = batch_rename("", Some(&listing_of(&["v1.0 1"], &[])), &pattern).unwrap();
    assert!(second[0].changed);
    assert_eq!(second[0].renamed, "v1.0 1.0 1");
}

#[test]
fn second_run_renumbers_where_new_names_do_not_sort_by_number() {
    let names: Vec<String> = (1..=10).map(|i| format!("f{:02}.txt", i)).collect();
    let refs: Vec<&str> = names.iter().map(|s| s.as_str()).collect();
    let pattern = RenamePattern::new("a0").with_separator("").with_pad_width(1);
    let first = batch_rename("", Some(&listing_of(&refs, &[])), &pattern).unwrap();
    assert_eq!(first[1].renamed, "a02.txt");
    assert_eq!(first[9].renamed, "a010.txt");

    let renamed: Vec<&str> = first.iter().map(|res| res.renamed.as_str()).collect();
    let second = batch_rename("", Some(&listing_of(&renamed, &[])), &pattern);
    match second {
        Ok(outcomes) => assert!(outcomes.iter().any(|res| res.changed)),
        Err(failure) => assert_eq!(failure.error.kind, ErrorKind::Collision),
    }
}
