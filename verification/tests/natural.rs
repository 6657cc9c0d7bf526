use render_core::names::{extract_index, has_media_extension, join_path, MediaKind};
use render_core::natural::sort_natural;

fn strings(names: &[&str]) -> Vec<String> {
    names.iter().map(|name| name.to_string()).collect()
}

#[test]
fn digit_runs_sort_by_value() {
    let sorted = sort_natural(&strings(&["clip2.wav", "clip10.wav", "clip1.wav"]));
    assert_eq!(sorted, vec!["clip1.wav", "clip2.wav", "clip10.wav"]);
}

#[test]
fn sorting_keeps_every_name() {
    let names = strings(&["b", "a10", "a9", "b", "", "a09", "Z", "a"]);
    let sorted = sort_natural(&names);
    assert_eq!(sorted.len(), names.len());
    let mut expected = names.clone();
    expected.sort();
    let mut got = sorted.clone();
    got.sort();
    assert_eq!(got, expected);
    assert!(sort_natural(&Vec::new()).is_empty());
}

#[test]
fn sorting_agrees_with_the_comparison() {
    let names = strings(&[
        "rfc2086.txt",
        "rfc822.txt",
        "rfc1.txt",
        "pic 5 something",
        "pic5",
        "pic100a",
        "pic100",
        "x2-y7",
        "x2-g8",
    ]);
    let sorted = sort_natural(&names);
    for pair in sorted.windows(2) {
        assert_ne!(
            natord::compare(&pair[0], &pair[1]),
            std::cmp::Ordering::Greater
        );
    }
    assert_eq!(sorted[0], "pic5");
    assert_eq!(sorted[4], "rfc1.txt");
    assert_eq!(sorted[6], "rfc2086.txt");
}

#[test]
fn equal_names_keep_their_order() {
    let sorted = sort_natural(&strings(&["a 1", "a1", "a  1", "a0"]));
    assert_eq!(sorted, vec!["a0", "a 1", "a1", "a  1"]);
}

#[test]
fn index_is_written_by_the_digits_at_the_end_of_the_stem() {
    assert_eq!(extract_index("scene_007.png"), Some(7));
    assert_eq!(extract_index("cover.png"), None);
    assert_eq!(extract_index("12.wav"), Some(12));
    assert_eq!(extract_index("a1b22.wav"), Some(22));
    assert_eq!(extract_index("x0012.png"), Some(12));
    assert_eq!(extract_index("a1b22c.wav"), None);
    assert_eq!(extract_index("clip7b.png"), None);
    assert_eq!(extract_index("take03_final.mp3"), None);
    assert_eq!(extract_index("7 .png"), None);
    assert_eq!(extract_index("clip5"), Some(5));
    assert_eq!(extract_index("clip.mp3"), None);
    assert_eq!(extract_index("clip.7"), None);
    assert_eq!(extract_index("v2.clip.7"), None);
    assert_eq!(extract_index("v2.clip3.7"), Some(3));
    assert_eq!(extract_index(".5"), Some(5));
    assert_eq!(extract_index(""), None);
    assert_eq!(extract_index(".."), None);
    assert_eq!(extract_index("٣.wav"), None);
}

#[test]
fn index_has_to_fit_in_32_bits() {
    assert_eq!(extract_index("n4294967295.wav"), Some(u32::MAX));
    assert_eq!(extract_index("n4294967296.wav"), None);
    assert_eq!(extract_index("n00000000000000000042.wav"), Some(42));
    assert_eq!(extract_index("n99999999999999999999999999.wav"), None);
    assert_eq!(extract_index("n0.wav"), Some(0));
}

#[test]
fn extensions_are_matched_without_regard_to_case() {
    for name in ["a.wav", "a.WAV", "a.Mp3", "a.m4a", "a.aac", "a.FLAC", "a.ogg", "x.y.ogg"] {
        assert!(has_media_extension(MediaKind::Audio, name), "{}", name);
    }
    for name in ["a.jpg", "a.JPEG", "a.png", "a.webp", "a.bmp", "a.TiFf"] {
        assert!(has_media_extension(MediaKind::Image, name), "{}", name);
        assert!(!has_media_extension(MediaKind::Audio, name), "{}", name);
    }
    for name in ["a.srt", "a.ASS", "a.vtt"] {
        assert!(has_media_extension(MediaKind::Subtitle, name), "{}", name);
    }
    for name in ["wav", ".wav", "a.wav.", "a.wave", "a.", "", "..", "a.tif", "a.txt", "a. wav"] {
        assert!(!has_media_extension(MediaKind::Audio, name), "{}", name);
        assert!(!has_media_extension(MediaKind::Image, name), "{}", name);
        assert!(!has_media_extension(MediaKind::Subtitle, name), "{}", name);
    }
}

#[test]
fn paths_are_joined_with_one_separator() {
    assert_eq!(join_path("a", "b.txt"), "a/b.txt");
    assert_eq!(join_path("a/", "b.txt"), "a/b.txt");
    assert_eq!(join_path("", "b.txt"), "b.txt");
    assert_eq!(join_path("/", "b.txt"), "/b.txt");
    assert_eq!(join_path("a/b", ""), "a/b/");
}
