//! Reports that help to find out where the application looks for its
//! files.

use vstd::prelude::*;
use vstd::string::StringExecFns;
use crate::models::PathDebugInfo;
use crate::path_resolver::{join_path, joined_path, without_environment, PathResolver};

verus! {

/// The words for a truth value.
pub open spec fn truth(b: bool) -> Seq<char> {
    if b {
        "true"@
    } else {
        "false"@
    }
}

fn append_truth(text: &mut String, b: bool)
    ensures
        final(text)@ == old(text)@ + truth(b),
{
    if b {
        text.append("true");
    } else {
        text.append("false");
    }
}

/// Where the resolver keeps the application's data, together with the
/// place of a sample recording.
pub fn debug_paths(resolver: &PathResolver, debug_mode: bool) -> (info: PathDebugInfo)
    ensures
        info.is_debug_mode == debug_mode,
        info.cfg_debug_assertions == debug_mode,
        info.path_resolver_base_dir@ == resolver.base(),
        info.recordings_dir@ == joined_path(resolver.base(), "recordings"@),
        info.images_dir@ == joined_path(resolver.base(), "images"@),
        info.sample_resolved_path@ == joined_path(
            resolver.base(),
            without_environment("app-data/recordings/test.wav"@),
        ),
{
    PathDebugInfo {
        is_debug_mode: debug_mode,
        path_resolver_base_dir: resolver.get_app_data_dir().clone(),
        recordings_dir: resolver.get_recordings_dir(),
        images_dir: resolver.get_images_dir(),
        sample_resolved_path: resolver.resolve_relative_path("app-data/recordings/test.wav"),
        cfg_debug_assertions: debug_mode,
    }
}

/// The report on how a stored path was resolved and on whether a file is
/// there.
pub fn debug_recording_paths(relative_path: &str, resolved: &str, exists: bool) -> (report: String)
    ensures
        report@ == "Relative: "@ + relative_path@ + " \u{2192} Resolved: "@ + resolved@ + " (exists: "@ + truth(
            exists,
        ) + ")"@,
{
    let mut report = String::from_str("Relative: ");
    report.append(relative_path);
    report.append(" \u{2192} Resolved: ");
    report.append(resolved);
    report.append(" (exists: ");
    append_truth(&mut report, exists);
    report.append(")");
    report
}

/// The path that is found by joining a stored path to the directory that
/// the application runs in, which is not where the file lies.
pub fn naive_location(current_dir: &str, relative_path: &str) -> (path: String)
    ensures
        path@ == joined_path(current_dir@, relative_path@),
{
    join_path(current_dir, relative_path)
}

/// The report that sets the naive way of finding a recording against the
/// resolver's.
pub fn debug_audio_loading(
    current_dir: &str,
    relative_path: &str,
    wrong_path: &str,
    wrong_exists: bool,
    correct_path: &str,
    correct_exists: bool,
) -> (report: String)
    ensures
        report@ == "\u{1f50d} Audio Loading Debug:\n\n1. Current Working Dir: "@ + current_dir@
            + "\n2. Relative Path: "@ + relative_path@ + "\n3. Frontend Wrong Path: "@ + wrong_path@
            + " (exists: "@ + truth(wrong_exists) + ")\n4. PathResolver Correct Path: "@ + correct_path@
            + " (exists: "@ + truth(correct_exists)
            + ")\n\n\u{274c} Problem: Frontend uses current_dir + relative_path\n\u{2705} Solution: Frontend should get absolute path from Rust"@,
{
    let mut report = String::from_str("\u{1f50d} Audio Loading Debug:\n\n1. Current Working Dir: ");
    report.append(current_dir);
    report.append("\n2. Relative Path: ");
    report.append(relative_path);
    report.append("\n3. Frontend Wrong Path: ");
    report.append(wrong_path);
    report.append(" (exists: ");
    append_truth(&mut report, wrong_exists);
    report.append(")\n4. PathResolver Correct Path: ");
    report.append(correct_path);
    report.append(" (exists: ");
    append_truth(&mut report, correct_exists);
    report.append(
        ")\n\n\u{274c} Problem: Frontend uses current_dir + relative_path\n\u{2705} Solution: Frontend should get absolute path from Rust",
    );
    report
}

} // verus!
