use apk_downloader::{validate_config, DownloadSource, IdentifierSource, ListSource,
    StartupError};

fn base_outpath() -> String {
    String::from("/tmp/out")
}

#[test]
fn missing_output_dir_is_fatal_before_anything_else() {
    let r = validate_config(
        Some(String::from("com.foo")),
        None,
        None,
        1,
        DownloadSource::APKPure,
        None,
        None,
        4,
        base_outpath(),
        false,
    );
    assert_eq!(r.unwrap_err(), StartupError::OutputDirMissing);
}

#[test]
fn direct_identifier_accepted() {
    let r = validate_config(
        Some(String::from("com.foo")),
        None,
        None,
        1,
        DownloadSource::APKPure,
        None,
        None,
        4,
        base_outpath(),
        true,
    )
    .unwrap();
    match r.source {
        IdentifierSource::Direct(name) => assert_eq!(name, "com.foo"),
        _ => panic!("expected a direct identifier"),
    }
    assert_eq!(r.parallel, 4);
    assert_eq!(r.outpath, "/tmp/out");
}

#[test]
fn both_name_and_list_conflict() {
    let r = validate_config(
        Some(String::from("com.foo")),
        Some(ListSource::AndroidRank),
        None,
        1,
        DownloadSource::APKPure,
        None,
        None,
        4,
        base_outpath(),
        true,
    );
    assert_eq!(r.unwrap_err(), StartupError::ConflictingList);
}

#[test]
fn neither_name_nor_list_rejected() {
    let r = validate_config(
        None,
        None,
        None,
        1,
        DownloadSource::APKPure,
        None,
        None,
        4,
        base_outpath(),
        true,
    );
    assert_eq!(r.unwrap_err(), StartupError::NoListGiven);
}

#[test]
fn csv_list_requires_path() {
    let r = validate_config(
        None,
        Some(ListSource::CSV),
        None,
        1,
        DownloadSource::APKPure,
        None,
        None,
        4,
        base_outpath(),
        true,
    );
    assert_eq!(r.unwrap_err(), StartupError::MissingCsvPath);
}

#[test]
fn csv_field_must_be_at_least_one() {
    let r = validate_config(
        None,
        Some(ListSource::CSV),
        Some(String::from("apps.csv")),
        0,
        DownloadSource::APKPure,
        None,
        None,
        4,
        base_outpath(),
        true,
    );
    assert_eq!(r.unwrap_err(), StartupError::InvalidField);
}

#[test]
fn csv_list_accepted() {
    let r = validate_config(
        None,
        Some(ListSource::CSV),
        Some(String::from("apps.csv")),
        2,
        DownloadSource::APKPure,
        None,
        None,
        1,
        base_outpath(),
        true,
    )
    .unwrap();
    match r.source {
        IdentifierSource::CsvFile { path, field } => {
            assert_eq!(path, "apps.csv");
            assert_eq!(field, 2);
        },
        _ => panic!("expected a file source"),
    }
}

#[test]
fn api_session_backend_requires_credentials() {
    let r = validate_config(
        Some(String::from("com.foo")),
        None,
        None,
        1,
        DownloadSource::GooglePlay,
        Some(String::from("user")),
        None,
        4,
        base_outpath(),
        true,
    );
    assert_eq!(r.unwrap_err(), StartupError::MissingCredentials);
}

#[test]
fn api_session_backend_with_credentials_accepted() {
    let r = validate_config(
        Some(String::from("com.foo")),
        None,
        None,
        1,
        DownloadSource::GooglePlay,
        Some(String::from("user")),
        Some(String::from("pass")),
        4,
        base_outpath(),
        true,
    )
    .unwrap();
    assert_eq!(r.download_source, DownloadSource::GooglePlay);
    assert_eq!(r.username.as_deref(), Some("user"));
}

#[test]
fn zero_parallelism_rejected() {
    let r = validate_config(
        Some(String::from("com.foo")),
        None,
        None,
        1,
        DownloadSource::APKPure,
        None,
        None,
        0,
        base_outpath(),
        true,
    );
    assert_eq!(r.unwrap_err(), StartupError::InvalidParallelism);
}

#[test]
fn android_rank_list_accepted() {
    let r = validate_config(
        None,
        Some(ListSource::AndroidRank),
        None,
        1,
        DownloadSource::APKPure,
        None,
        None,
        4,
        base_outpath(),
        true,
    )
    .unwrap();
    assert!(matches!(r.source, IdentifierSource::AndroidRank));
}
