//! Which yt-dlp / ffmpeg binary to run: a binary bundled with the app comes
//! first, then one next to the executable (or in a `binaries` folder), then
//! the one on `PATH`.
use vstd::prelude::*;

verus! {

/// Where a binary was found.
#[derive(Debug, Clone, Copy, PartialEq, Eq)]
pub enum BinarySource {
    /// Bundled with the app as a Tauri resource.
    Bundled,
    /// Next to the executable, or in a development `binaries` folder.
    Sidecar,
    /// On `PATH`.
    SystemPath,
    /// Nowhere.
    NotFound,
}

/// A binary to run and where it came from.
#[derive(Debug, Clone)]
pub struct Resolved {
    /// An absolute path, or a bare name such as `"yt-dlp"`.
    pub command: String,
    pub source: BinarySource,
}

impl Resolved {
    /// The answer when `name` was found nowhere: the bare name.
    pub fn not_found(name: &str) -> (r: Resolved)
        ensures
            r.command@ == name@,
            r.source == BinarySource::NotFound,
    {
        let mut command = String::new();
        command.push_str(name);
        Resolved { command, source: BinarySource::NotFound }
    }
}

/// The choice among candidates that exist, tried in order: the first one;
/// else the bare name when it is on `PATH`; else not found.
pub open spec fn spec_choose_binary(
    existing: Seq<(Seq<char>, BinarySource)>,
    name: Seq<char>,
    on_path: bool,
) -> (Seq<char>, BinarySource) {
    if existing.len() > 0 {
        existing[0]
    } else if on_path {
        (name, BinarySource::SystemPath)
    } else {
        (name, BinarySource::NotFound)
    }
}

/// The first existing candidate wins, in the order they are tried; with
/// none, the bare name is run from `PATH` when it is there, and otherwise
/// the binary is not found (and still named by its bare name).
pub proof fn law_first_existing_candidate_wins(
    existing: Seq<(Seq<char>, BinarySource)>,
    name: Seq<char>,
    on_path: bool,
)
    ensures
        existing.len() > 0 ==> spec_choose_binary(existing, name, on_path) == existing[0],
        existing.len() == 0 && on_path ==> spec_choose_binary(existing, name, on_path) == (
            name,
            BinarySource::SystemPath,
        ),
        existing.len() == 0 && !on_path ==> spec_choose_binary(existing, name, on_path) == (
            name,
            BinarySource::NotFound,
        ),
{
}

/// Pick the binary to run.  `existing` holds, in the order they are tried,
/// the candidate files that exist (resource dir: bundled; executable dir,
/// its `binaries` folder, the workspace `binaries` folders: sidecar).
pub fn choose_binary(existing: &Vec<(String, BinarySource)>, name: &str, on_path: bool) -> (r:
    Resolved)
    ensures
        (r.command@, r.source) == spec_choose_binary(
            existing@.map_values(|c: (String, BinarySource)| (c.0@, c.1)),
            name@,
            on_path,
        ),
{
    if existing.len() > 0 {
        return Resolved { command: existing[0].0.clone(), source: existing[0].1 };
    }
    if on_path {
        let mut command = String::new();
        command.push_str(name);
        return Resolved { command, source: BinarySource::SystemPath };
    }
    Resolved::not_found(name)
}

/// How the settings page names a source.
pub open spec fn spec_source_name(s: BinarySource) -> Seq<char> {
    match s {
        BinarySource::Bundled => "bundled"@,
        BinarySource::Sidecar => "sidecar"@,
        BinarySource::SystemPath => "system_path"@,
        BinarySource::NotFound => "not_found"@,
    }
}

pub fn source_name(s: BinarySource) -> (r: &'static str)
    ensures
        r@ == spec_source_name(s),
{
    match s {
        BinarySource::Bundled => "bundled",
        BinarySource::Sidecar => "sidecar",
        BinarySource::SystemPath => "system_path",
        BinarySource::NotFound => "not_found",
    }
}

} // verus!
