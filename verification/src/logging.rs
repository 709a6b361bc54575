//! Where the program keeps its files: a directory under the platform's data
//! directory, with the log and the captures below it.
use std::path::PathBuf;
use vstd::prelude::*;

verus! {

#[verifier::external_type_specification]
#[verifier::external_body]
pub struct ExPathBuf(PathBuf);

/// The name of the program's directory under the data directory.
pub const APP_DIR: &'static str = "ascii-webcam";

/// The platform's directory for user data (`dirs::data_dir`). It depends on
/// the platform and the environment, and may be absent; nothing is stated of
/// it.
#[verifier::external_body]
fn platform_data_dir() -> Option<PathBuf> {
    dirs::data_dir()
}

/// The path that std's `PathBuf::from` makes of `text`.
pub uninterp spec fn path_from_text(text: Seq<char>) -> PathBuf;

/// The path that std's `Path::join` makes of `base` with `segment` adjoined.
pub uninterp spec fn path_join(base: PathBuf, segment: Seq<char>) -> PathBuf;

/// A path made of the given text (std's `PathBuf::from`). The path is named
/// by `path_from_text`; its contents are not stated.
#[verifier::external_body]
fn path_of(s: &str) -> (p: PathBuf)
    ensures
        p == path_from_text(s@),
{
    PathBuf::from(s)
}

/// `base` with `segment` adjoined (std's `Path::join`). The path is named by
/// `path_join`; its contents are not stated.
#[verifier::external_body]
fn joined(base: &PathBuf, segment: &str) -> (p: PathBuf)
    ensures
        p == path_join(*base, segment@),
{
    base.join(segment)
}

/// The data directory when the platform reports `platform` as its directory
/// for user data: `ascii-webcam` under it, or under `.` when there is none.
pub open spec fn app_dir_under(platform: Option<PathBuf>) -> PathBuf {
    let base = match platform {
        Some(dir) => dir,
        None => path_from_text("."@),
    };
    path_join(base, APP_DIR@)
}

/// The log file under the data directory of `platform`.
pub open spec fn log_file_under(platform: Option<PathBuf>) -> PathBuf {
    path_join(path_join(app_dir_under(platform), "logs"@), "ascii-webcam.log"@)
}

/// The capture directory under the data directory of `platform`.
pub open spec fn capture_dir_under(platform: Option<PathBuf>) -> PathBuf {
    path_join(app_dir_under(platform), "captures"@)
}

/// The data directory for the platform's answer `platform`: `ascii-webcam`
/// under the platform's directory for user data, or under `.` when the
/// platform has none.
pub fn app_dir(platform: Option<PathBuf>) -> (dir: PathBuf)
    ensures
        dir == app_dir_under(platform),
{
    let base = match platform {
        Some(d) => d,
        None => path_of("."),
    };
    joined(&base, APP_DIR)
}

/// The log file for the platform's answer `platform`:
/// `logs/ascii-webcam.log` in its data directory.
pub fn log_file_of(platform: Option<PathBuf>) -> (file: PathBuf)
    ensures
        file == log_file_under(platform),
{
    let logs = joined(&app_dir(platform), "logs");
    joined(&logs, "ascii-webcam.log")
}

/// The capture directory for the platform's answer `platform`: `captures`
/// in its data directory.
pub fn capture_dir_of(platform: Option<PathBuf>) -> (dir: PathBuf)
    ensures
        dir == capture_dir_under(platform),
{
    joined(&app_dir(platform), "captures")
}

/// The program's data directory: `app_dir` of what the platform reports as its
/// directory for user data. That answer depends on the environment, so the
/// result is stated for some answer.
pub fn data_dir() -> (dir: PathBuf)
    ensures
        exists|platform: Option<PathBuf>| dir == app_dir_under(platform),
{
    app_dir(platform_data_dir())
}

/// The log file: `log_file_of` what the platform reports.
pub fn log_file() -> (file: PathBuf)
    ensures
        exists|platform: Option<PathBuf>| file == log_file_under(platform),
{
    log_file_of(platform_data_dir())
}

/// The directory of captures: `capture_dir_of` what the platform reports.
pub fn capture_dir() -> (dir: PathBuf)
    ensures
        exists|platform: Option<PathBuf>| dir == capture_dir_under(platform),
{
    capture_dir_of(platform_data_dir())
}

} // verus!
