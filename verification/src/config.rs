//! The settings of a packaging run.

use vstd::prelude::*;
use crate::entries::ExtraEntry;
use crate::path::PackPath;

verus! {

/// `globset::GlobSet`, a set of patterns for names.
#[verifier::external_type_specification]
#[verifier::external_body]
pub struct ExGlobSet(globset::GlobSet);

/// `ignore::overrides::Override`, the patterns that a walk accepts paths
/// by. It is carried in the settings and never looked into.
#[verifier::external_type_specification]
#[verifier::external_body]
pub struct ExOverride(ignore::overrides::Override);

/// The settings of a packaging run. They are read once and do not change
/// while the run lasts.
#[derive(Debug)]
pub struct Config {
    /// The display name to give the world.
    pub name: Option<String>,
    /// The directory to put every member of the archive under.
    pub dirname: Option<PackPath>,
    /// Files and directories from outside the world to add.
    pub extra_entries: Vec<ExtraEntry>,
    /// The resourcepack to ship with the world.
    pub resourcepack: Option<PackPath>,
    /// Whether to clear the player's data.
    pub reset_player: bool,
    /// Whether to archive the datapacks that are directories.
    pub zip_datapacks: bool,
    /// Whether to remove the empty chunks from the regions.
    pub clean_chunks: bool,
    /// The blocks that do not make a chunk worth keeping.
    pub ignored_blocks: Vec<String>,
    /// The player scores to keep; all of them where the set is empty.
    pub accepted_scores: globset::GlobSet,
    /// The objectives to keep; all of them where the set is empty.
    pub accepted_objectives: globset::GlobSet,
    /// The paths of the world that a walk visits at all. The walk applies
    /// it; nothing here looks into it.
    pub accepted_entries: ignore::overrides::Override,
}

/// The number of patterns that a glob set holds.
pub uninterp spec fn glob_count(set: globset::GlobSet) -> nat;

/// The names that a glob set accepts: those that one of its patterns
/// matches.
pub uninterp spec fn accepted_names(set: globset::GlobSet) -> Set<Seq<char>>;

/// `GlobSet::is_empty`: true exactly when the set holds no pattern.
#[verifier::external_body]
pub(crate) fn glob_set_is_empty(set: &globset::GlobSet) -> (r: bool)
    ensures
        r == (glob_count(*set) == 0),
{
    set.is_empty()
}

/// `GlobSet::is_match` on a name: whether any pattern of the set matches
/// it.
#[verifier::external_body]
pub(crate) fn glob_set_is_match(set: &globset::GlobSet, name: &str) -> (r: bool)
    ensures
        r == accepted_names(*set).contains(name@),
{
    set.is_match(name)
}

/// The blocks that are ignored where the settings name none: air.
pub fn ignored_blocks() -> (r: Vec<String>)
    ensures
        r@.len() == 1,
        r@[0]@ == "minecraft:air"@,
{
    let mut blocks: Vec<String> = Vec::new();
    blocks.push("minecraft:air".to_owned());
    blocks
}

} // verus!
