//! What the library learns from its surroundings: the user's directories.

use crate::path::{parse_path, FsPath, PathModel};
use crate::text::text_of;
use vstd::prelude::*;

verus! {

/// Calls `dirs::home_dir` and hands back the directory as text. Nothing is
/// claimed of the result: it depends on the environment of the process. In
/// a directory whose name is no UTF-8, what is no text is replaced.
#[verifier::external_body]
fn home_dir_text() -> (found: Option<String>) {
    match dirs::home_dir() {
        Some(dir) => Some(dir.to_string_lossy().into_owned()),
        None => None,
    }
}

/// Calls `dirs::data_local_dir` and hands back the directory as text.
/// Nothing is claimed of the result: it depends on the environment of the
/// process. In a directory whose name is no UTF-8, what is no text is
/// replaced.
#[verifier::external_body]
fn data_local_dir_text() -> (found: Option<String>) {
    match dirs::data_local_dir() {
        Some(dir) => Some(dir.to_string_lossy().into_owned()),
        None => None,
    }
}

/// Calls `dirs::cache_dir` and hands back the directory as text. Nothing is
/// claimed of the result: it depends on the environment of the process. In
/// a directory whose name is no UTF-8, what is no text is replaced.
#[verifier::external_body]
fn cache_dir_text() -> (found: Option<String>) {
    match dirs::cache_dir() {
        Some(dir) => Some(dir.to_string_lossy().into_owned()),
        None => None,
    }
}

/// The directory that a lookup found, or else the one that `fallback`
/// names.
pub open spec fn found_or(found: Option<Seq<char>>, fallback: Seq<char>) -> PathModel {
    match found {
        Some(text) => parse_path(text),
        None => parse_path(fallback),
    }
}

/// The directory that a lookup found, or else the one that `fallback`
/// names.
pub fn resolve_or(found: Option<String>, fallback: &str) -> (dir: FsPath)
    ensures
        dir@ == found_or(text_of(found), fallback@),
{
    match found {
        Some(text) => FsPath::parse(text.as_str()),
        None => FsPath::parse(fallback),
    }
}

/// The directory that a lookup found, if it found one.
pub open spec fn found_dir(found: Option<Seq<char>>) -> Option<PathModel> {
    match found {
        Some(text) => Some(parse_path(text)),
        None => None,
    }
}

/// The directory that a lookup found, if it found one: the path that the
/// text denotes, and no directory where the lookup found none.
pub fn resolve(found: Option<String>) -> (dir: Option<FsPath>)
    ensures
        match found_dir(text_of(found)) {
            Some(path) => dir.is_some() && dir.unwrap()@ == path,
            None => dir.is_none(),
        },
{
    match found {
        Some(text) => Some(FsPath::parse(text.as_str())),
        None => None,
    }
}

/// The user's home directory, if it can be determined.
pub fn home_dir() -> (home: Option<FsPath>)
    ensures
        home.is_some() ==> exists|text: Seq<char>| home.unwrap()@ == parse_path(text),
{
    resolve(home_dir_text())
}

/// The boundary inside which deletions can be undone: the user's home
/// directory, or `~` when it cannot be determined.
pub fn home_boundary() -> (home: FsPath)
    ensures
        exists|found: Option<Seq<char>>| home@ == found_or(found, "~"@),
{
    let found = home_dir_text();
    let ghost looked_up = text_of(found);
    let home = resolve_or(found, "~");
    assert(home@ == found_or(looked_up, "~"@));
    home
}

/// The user's local data directory, or `~/.local/share` when it cannot be
/// determined.
pub fn data_local_dir() -> (dir: FsPath)
    ensures
        exists|found: Option<Seq<char>>| dir@ == found_or(found, "~/.local/share"@),
{
    let found = data_local_dir_text();
    let ghost looked_up = text_of(found);
    let dir = resolve_or(found, "~/.local/share");
    assert(dir@ == found_or(looked_up, "~/.local/share"@));
    dir
}

/// The user's cache directory, or `~/.cache` when it cannot be determined.
pub fn cache_dir() -> (dir: FsPath)
    ensures
        exists|found: Option<Seq<char>>| dir@ == found_or(found, "~/.cache"@),
{
    let found = cache_dir_text();
    let ghost looked_up = text_of(found);
    let dir = resolve_or(found, "~/.cache");
    assert(dir@ == found_or(looked_up, "~/.cache"@));
    dir
}

/// The trash staging area: the directory `Trash` inside the local data
/// directory.
pub fn trash_root() -> (dir: FsPath)
    ensures
        exists|found: Option<Seq<char>>| dir@ == found_or(found, "~/.local/share"@).join("Trash"@),
{
    let base = data_local_dir();
    base.join("Trash")
}

} // verus!
