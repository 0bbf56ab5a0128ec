//! Validated run configuration.
//!
//! The command line hands raw option values to [`validate_config`], which
//! either produces a well-formed [`Config`] or says exactly which startup
//! check failed. No download work may begin on an `Err`.

use vstd::prelude::*;

verus! {

/// Which list of identifiers to download, as selected on the command line.
#[derive(Clone, Copy, PartialEq, Eq, Structural, Debug)]
pub enum ListSource {
    /// The fixed well-known remote ranking list.
    AndroidRank,
    /// A local comma-separated file.
    CSV,
}

/// Which backend fetches each package.
#[derive(Clone, Copy, PartialEq, Eq, Structural, Debug)]
pub enum DownloadSource {
    /// Browser-automation backend: one scripted browser session per attempt.
    APKPure,
    /// API-session backend: one shared authenticated session for the run.
    GooglePlay,
}

/// The validated source of identifiers.
#[derive(Debug)]
pub enum IdentifierSource {
    /// A single identifier given directly.
    Direct(String),
    /// The fixed remote ranking list, first column.
    AndroidRank,
    /// A local comma-separated file and a 1-indexed column.
    CsvFile { path: String, field: usize },
}

/// A startup check that failed; the process must exit without downloading.
#[derive(Clone, Copy, PartialEq, Eq, Structural, Debug)]
pub enum StartupError {
    /// The output path does not name an existing directory.
    OutputDirMissing,
    /// Both a direct identifier and a list source were given.
    ConflictingList,
    /// Neither a direct identifier nor a list source was given.
    NoListGiven,
    /// The list source is a local file but no path was given.
    MissingCsvPath,
    /// The 1-indexed column number is zero.
    InvalidField,
    /// The API-session backend was chosen without credentials.
    MissingCredentials,
    /// The parallelism width is zero.
    InvalidParallelism,
}

/// A validated run configuration.
#[derive(Debug)]
pub struct Config {
    pub source: IdentifierSource,
    pub download_source: DownloadSource,
    pub username: Option<String>,
    pub password: Option<String>,
    pub parallel: usize,
    pub outpath: String,
}

impl Config {
    /// Every relationship the startup checks establish.
    pub open spec fn wf(&self) -> bool {
        &&& self.parallel >= 1
        &&& (self.download_source is GooglePlay ==> self.username is Some
            && self.password is Some)
        &&& (self.source matches IdentifierSource::CsvFile { path: _, field } ==> field >= 1)
    }
}

/// What [`validate_config`] returns, stated directly over its inputs.
/// The checks run in this order; the first that fails names the error.
pub open spec fn validate_spec(
    app_name: Option<Seq<char>>,
    list_source: Option<ListSource>,
    csv_path: Option<Seq<char>>,
    field: usize,
    download_source: DownloadSource,
    has_username: bool,
    has_password: bool,
    parallel: usize,
    outpath_is_dir: bool,
) -> Result<(), StartupError> {
    if !outpath_is_dir {
        Err(StartupError::OutputDirMissing)
    } else if app_name is Some && list_source is Some {
        Err(StartupError::ConflictingList)
    } else if app_name is None && list_source is None {
        Err(StartupError::NoListGiven)
    } else if list_source == Some(ListSource::CSV) && csv_path is None {
        Err(StartupError::MissingCsvPath)
    } else if list_source == Some(ListSource::CSV) && field < 1 {
        Err(StartupError::InvalidField)
    } else if download_source is GooglePlay && !(has_username && has_password) {
        Err(StartupError::MissingCredentials)
    } else if parallel < 1 {
        Err(StartupError::InvalidParallelism)
    } else {
        Ok(())
    }
}

/// Runs every startup check on the raw command-line values.
///
/// Returns a well-formed [`Config`] exactly when all checks pass; otherwise
/// the first failing check's error, as [`validate_spec`] states.
/// `outpath_is_dir` is the caller's answer to whether `outpath` names an
/// existing directory, the one check that only the file system can make.
pub fn validate_config(
    app_name: Option<String>,
    list_source: Option<ListSource>,
    csv_path: Option<String>,
    field: usize,
    download_source: DownloadSource,
    username: Option<String>,
    password: Option<String>,
    parallel: usize,
    outpath: String,
    outpath_is_dir: bool,
) -> (r: Result<Config, StartupError>)
    ensures
        r is Ok <==> validate_spec(
            app_name.deep_view(),
            list_source,
            csv_path.deep_view(),
            field,
            download_source,
            username is Some,
            password is Some,
            parallel,
            outpath_is_dir,
        ) is Ok,
        r matches Err(e) ==> Err::<(), StartupError>(e) == validate_spec(
            app_name.deep_view(),
            list_source,
            csv_path.deep_view(),
            field,
            download_source,
            username is Some,
            password is Some,
            parallel,
            outpath_is_dir,
        ),
        r matches Ok(c) ==> {
            &&& c.wf()
            &&& (app_name matches Some(n) ==> (c.source matches IdentifierSource::Direct(d)
                && d@ == n@))
            &&& (app_name is None && list_source == Some(ListSource::AndroidRank)
                ==> c.source is AndroidRank)
            &&& (app_name is None && list_source == Some(ListSource::CSV)
                ==> (c.source matches IdentifierSource::CsvFile { path, field: f }
                && Some(path@) == csv_path.deep_view() && f == field))
            &&& c.download_source == download_source
            &&& c.username == username
            &&& c.password == password
            &&& c.parallel == parallel
            &&& c.outpath == outpath
        },
{
    if !outpath_is_dir {
        return Err(StartupError::OutputDirMissing);
    }
    let source: IdentifierSource = match (app_name, list_source) {
        (Some(_), Some(_)) => {
            return Err(StartupError::ConflictingList);
        },
        (None, None) => {
            return Err(StartupError::NoListGiven);
        },
        (Some(name), None) => IdentifierSource::Direct(name),
        (None, Some(ListSource::AndroidRank)) => IdentifierSource::AndroidRank,
        (None, Some(ListSource::CSV)) => {
            match csv_path {
                None => {
                    return Err(StartupError::MissingCsvPath);
                },
                Some(path) => {
                    if field < 1 {
                        return Err(StartupError::InvalidField);
                    }
                    IdentifierSource::CsvFile { path, field }
                },
            }
        },
    };
    if matches!(download_source, DownloadSource::GooglePlay)
        && !(username.is_some() && password.is_some()) {
        return Err(StartupError::MissingCredentials);
    }
    if parallel < 1 {
        return Err(StartupError::InvalidParallelism);
    }
    Ok(Config { source, download_source, username, password, parallel, outpath })
}

} // verus!
