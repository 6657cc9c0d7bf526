use render_core::models::{
    check_download, find_model, list_models, model_catalog, resolve_model_path, sort_models,
    unknown_model, ModelSource, WhisperModelInfo,
};
use render_core::ErrorKind;

fn info(name: &str, recommended: bool) -> WhisperModelInfo {
    WhisperModelInfo {
        id: name.to_lowercase(),
        name: name.to_string(),
        path: String::new(),
        size_bytes: 0,
        recommended,
        available: false,
    }
}

#[test]
fn catalog_holds_four_models() {
    let catalog = model_catalog();
    let ids: Vec<&str> = catalog.iter().map(|spec| spec.id).collect();
    assert_eq!(ids, vec!["ggml-tiny-en", "ggml-base", "ggml-small-en", "ggml-medium"]);
    assert_eq!(catalog[0].filename, "ggml-tiny.en.bin");
    assert_eq!(catalog[1].display_name, "Whisper Base");
    assert!(catalog[1].recommended);
    assert_eq!(catalog.iter().filter(|spec| spec.recommended).count(), 1);
    assert_eq!(catalog[3].size_bytes, 1_550_000_000);
    assert_eq!(
        catalog[2].url,
        "https://huggingface.co/ggerganov/whisper.cpp/resolve/main/ggml-small.en.bin"
    );
}

#[test]
fn models_are_found_by_id() {
    assert_eq!(find_model("ggml-medium").unwrap().filename, "ggml-medium.bin");
    assert_eq!(find_model("ggml-tiny-en").unwrap().size_bytes, 75_000_000);
    assert!(find_model("ggml-large").is_none());
    assert!(find_model("GGML-BASE").is_none());
    assert!(find_model("").is_none());
}

#[test]
fn catalog_models_are_kept_in_the_models_directory() {
    match resolve_model_path("/data/models", "ggml-tiny-en") {
        ModelSource::Catalog {
            spec,
            destination,
            temporary,
        } => {
            assert_eq!(spec.id, "ggml-tiny-en");
            assert_eq!(destination, "/data/models/ggml-tiny.en.bin");
            assert_eq!(temporary, "/data/models/ggml-tiny.en.download");
        }
        ModelSource::Literal { .. } => panic!("the id is in the catalog"),
    }
    match resolve_model_path("/data/models", "/home/me/custom.bin") {
        ModelSource::Literal { path } => assert_eq!(path, "/home/me/custom.bin"),
        ModelSource::Catalog { .. } => panic!("the id is not in the catalog"),
    }
}

#[test]
fn unknown_model_is_not_found() {
    let error = unknown_model("nope");
    assert_eq!(error.kind, ErrorKind::NotFound);
    assert_eq!(
        error.message,
        "Model identifier 'nope' not recognised and file not found."
    );
}

#[test]
fn download_succeeds_on_2xx_only() {
    let spec = find_model("ggml-base").unwrap();
    assert!(check_download(&spec, 200, "200 OK").is_ok());
    assert!(check_download(&spec, 299, "299 <unknown status code>").is_ok());
    for code in [100u16, 199, 300, 404, 500] {
        let error = check_download(&spec, code, "404 Not Found").unwrap_err();
        assert_eq!(error.kind, ErrorKind::Network);
        assert_eq!(
            error.message,
            "Failed to download model 'Whisper Base' (status: 404 Not Found)"
        );
    }
}

#[test]
fn recommended_models_are_listed_first() {
    let listed = list_models("m", &vec![None, Some(10), None, Some(20)]);
    let names: Vec<&str> = listed.iter().map(|info| info.name.as_str()).collect();
    assert_eq!(
        names,
        vec![
            "Whisper Base",
            "Whisper Medium",
            "Whisper Small (English)",
            "Whisper Tiny (English)"
        ]
    );
    assert_eq!(listed[0].id, "ggml-base");
    assert_eq!(listed[0].path, "m/ggml-base.bin");
    assert!(listed[0].recommended);
    assert!(listed[0].available);
    assert_eq!(listed[0].size_bytes, 10);
    assert!(listed[1].available);
    assert_eq!(listed[1].size_bytes, 20);
    assert!(!listed[2].available);
    assert_eq!(listed[2].size_bytes, 465_000_000);
    assert!(!listed[3].available);
    assert_eq!(listed[3].size_bytes, 75_000_000);
}

#[test]
fn sizes_that_are_not_reported_count_as_missing() {
    let listed = list_models("m/", &Vec::new());
    assert_eq!(listed.len(), 4);
    assert!(listed.iter().all(|info| !info.available));
    assert_eq!(listed[0].path, "m/ggml-base.bin");
    assert_eq!(listed[0].size_bytes, 142_000_000);
}

#[test]
fn models_sort_by_recommendation_and_name() {
    let listed = sort_models(vec![
        info("b", false),
        info("B", false),
        info("ab", true),
        info("a", true),
        info("", false),
        info("é", false),
        info("z", true),
    ]);
    let names: Vec<&str> = listed.iter().map(|info| info.name.as_str()).collect();
    assert_eq!(names, vec!["a", "ab", "z", "", "B", "b", "é"]);
    assert!(sort_models(Vec::new()).is_empty());
}

#[test]
fn sorted_models_are_in_order_and_all_there() {
    let given = vec![
        info("Mid", false),
        info("mid", true),
        info("Mid", true),
        info("Alpha", false),
        info("Midway", false),
        info("Mi", false),
        info("alpha", true),
    ];
    let listed = sort_models(given.clone());
    for pair in listed.windows(2) {
        let (first, second) = (&pair[0], &pair[1]);
        assert!(first.recommended || !second.recommended);
        if first.recommended == second.recommended {
            assert!(first.name <= second.name, "{} {}", first.name, second.name);
        }
    }
    let mut before: Vec<(bool, String)> =
        given.iter().map(|i| (i.recommended, i.name.clone())).collect();
    let mut after: Vec<(bool, String)> =
        listed.iter().map(|i| (i.recommended, i.name.clone())).collect();
    before.sort();
    after.sort();
    assert_eq!(before, after);
    let names: Vec<&str> = listed.iter().map(|info| info.name.as_str()).collect();
    assert_eq!(names, vec!["Mid", "alpha", "mid", "Alpha", "Mi", "Mid", "Midway"]);
}
