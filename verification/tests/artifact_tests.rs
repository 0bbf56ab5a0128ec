use apk_downloader::{app_page_url, join_path, plan_finalize, strip_size_annotation};
use apk_downloader::{FinalizePlan, PendingArtifact};

#[test]
fn strips_trailing_size_annotation() {
    assert_eq!(strip_size_annotation("example.apk (12.3 MB)"), "example.apk");
}

#[test]
fn leaves_unannotated_text_unchanged() {
    assert_eq!(strip_size_annotation("example.apk"), "example.apk");
}

#[test]
fn integer_size_annotation() {
    assert_eq!(strip_size_annotation("app.apk (7 MB)"), "app.apk");
}

#[test]
fn other_units_left_alone() {
    assert_eq!(strip_size_annotation("app.apk (7 KB)"), "app.apk (7 KB)");
}

#[test]
fn missing_number_left_alone() {
    assert_eq!(strip_size_annotation("app.apk ( MB)"), "app.apk ( MB)");
}

#[test]
fn missing_space_left_alone() {
    assert_eq!(strip_size_annotation("app.apk(7 MB)"), "app.apk(7 MB)");
}

#[test]
fn only_last_annotation_stripped() {
    assert_eq!(strip_size_annotation("a (1.2 MB) (3.4 MB)"), "a (1.2 MB)");
}

#[test]
fn annotation_alone_yields_empty() {
    assert_eq!(strip_size_annotation(" (1.2 MB)"), "");
}

#[test]
fn empty_text_unchanged() {
    assert_eq!(strip_size_annotation(""), "");
}

#[test]
fn short_text_unchanged() {
    assert_eq!(strip_size_annotation("a MB)"), "a MB)");
}

#[test]
fn agrees_with_reference_pattern() {
    let re = regex::Regex::new(r" \([0-9.]+ MB\)$").unwrap();
    let cases = [
        "example.apk (12.3 MB)",
        "example.apk",
        "a (1.2 MB) (3.4 MB)",
        "app.apk (7 KB)",
        "app.apk ( MB)",
        " (0.1 MB)",
        "x (..... MB)",
        "plain text",
    ];
    for case in cases {
        assert_eq!(strip_size_annotation(case), re.replace(case, "").into_owned());
    }
}

#[test]
fn join_path_inserts_separator() {
    assert_eq!(join_path("/tmp/out", "com.foo"), "/tmp/out/com.foo");
}

#[test]
fn app_page_url_wraps_identifier() {
    assert_eq!(
        app_page_url("com.foo.bar"),
        "https://apkpure.com/a/com.foo.bar/download?from=details"
    );
}

#[test]
fn empty_listing_is_unrecoverable() {
    let artifact = PendingArtifact {
        temp_dir: String::from("/tmp/out/com.foo"),
        target_name: String::from("example.apk"),
        app_id: String::from("com.foo"),
    };
    let entries: Vec<String> = Vec::new();
    assert_eq!(plan_finalize(&artifact, &entries), FinalizePlan::Unrecoverable);
}

#[test]
fn first_entry_renamed_to_target() {
    let artifact = PendingArtifact {
        temp_dir: String::from("/tmp/out/com.foo"),
        target_name: String::from("example.apk"),
        app_id: String::from("com.foo"),
    };
    let entries = vec![String::from("download-123.tmp"), String::from("other.bin")];
    assert_eq!(plan_finalize(&artifact, &entries), FinalizePlan::Rename {
        from: String::from("/tmp/out/com.foo/download-123.tmp"),
        to: String::from("/tmp/out/com.foo/example.apk"),
    });
}
