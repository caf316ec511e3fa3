//! The entries of a world: one unit of packaging work each, found by
//! classifying the paths that a walk of the world directory visits.

use vstd::prelude::*;
use crate::path::{
    extension_spec, file_name_spec, is_prefix, is_strict_prefix, ComponentV, PackPath,
};
use crate::text::same_text;

verus! {

/// The kinds of entry.
#[derive(Debug, Clone, Copy, PartialEq, Eq, Structural)]
pub enum EntryKind {
    Datapack,
    Extra,
    File,
    Level,
    Region,
    Resourcepack,
    Scoreboard,
}

/// A datapack: a file or a whole directory directly under `./datapacks`.
#[derive(Debug)]
pub struct DatapackEntry(pub PackPath);

/// A file that is copied as it is.
#[derive(Debug)]
pub struct FileEntry(pub PackPath);

/// The level metadata file.
#[derive(Debug)]
pub struct LevelEntry(pub PackPath);

/// A region container.
#[derive(Debug)]
pub struct RegionEntry(pub PackPath);

/// The resourcepack that is shipped with the world.
#[derive(Debug)]
pub struct ResourcepackEntry(pub PackPath);

/// The scoreboard metadata file.
#[derive(Debug)]
pub struct ScoreboardEntry(pub PackPath);

/// A file or directory from outside the world, with the place it goes to.
#[derive(Debug)]
pub enum ExtraEntry {
    /// Goes to the top of the output under its own file name.
    Short(PackPath),
    /// Goes to the given target path.
    Full(PackPath, PackPath),
}

/// One unit of packaging work.
#[derive(Debug)]
pub enum Entry {
    Datapack(DatapackEntry),
    Extra(ExtraEntry),
    File(FileEntry),
    Level(LevelEntry),
    Region(RegionEntry),
    Resourcepack(ResourcepackEntry),
    Scoreboard(ScoreboardEntry),
}

/// Claims the paths below `./datapacks`.
#[derive(Debug, Clone, Copy)]
pub struct DatapackPackager;

/// Claims the regular files with the region-container extension.
#[derive(Debug, Clone, Copy)]
pub struct RegionPackager;

/// Claims the regular files named like the scoreboard.
#[derive(Debug, Clone, Copy)]
pub struct ScoreboardPackager;

/// Claims the regular files named like the level.
#[derive(Debug, Clone, Copy)]
pub struct LevelPackager;

/// Claims every regular file.
#[derive(Debug, Clone, Copy)]
pub struct FilePackager;

/// Accepts the resourcepack whose source exists.
#[derive(Debug, Clone, Copy)]
pub struct ResourcepackPackager;

/// A datapack, told by the directory it lies in.
#[derive(Debug)]
pub struct DataPackEntry {
    pub path: PackPath,
}

/// The resourcepack at a path.
#[derive(Debug)]
pub struct ResourcePackEntry {
    pub path: PackPath,
}

/// A path that a walk of the world has visited.
#[derive(Debug)]
pub struct Found {
    pub path: PackPath,
    /// Whether the path names a regular file.
    pub is_file: bool,
}

/// The directory that holds the datapacks, `./datapacks`.
pub open spec fn datapacks_dir() -> Seq<ComponentV> {
    seq![ComponentV::CurDir, ComponentV::Normal("datapacks"@)]
}

/// A path below `./datapacks`: the datapack itself or anything inside it.
pub open spec fn under_datapacks(path: Seq<ComponentV>) -> bool {
    path.len() > 2 && is_prefix(datapacks_dir(), path)
}

/// A path that lies directly in a directory named `datapacks`.
pub open spec fn in_datapacks(path: Seq<ComponentV>) -> bool {
    path.len() >= 2 && path[path.len() - 2] == ComponentV::Normal("datapacks"@)
}

/// A regular file with the region-container extension.
pub open spec fn is_region(path: Seq<ComponentV>, is_file: bool) -> bool {
    is_file && extension_spec(path) == Some("mca"@)
}

/// A regular file with the scoreboard file's name.
pub open spec fn is_scoreboard(path: Seq<ComponentV>, is_file: bool) -> bool {
    is_file && file_name_spec(path) == Some("scoreboard.dat"@)
}

/// A regular file with the level file's name.
pub open spec fn is_level(path: Seq<ComponentV>, is_file: bool) -> bool {
    is_file && file_name_spec(path) == Some("level.dat"@)
}

/// The kind of entry that a path is, by the first rule that matches: below
/// `./datapacks`, a datapack; anything else that is no regular file, none;
/// then by extension and name a region, the scoreboard or the level; and a
/// plain file otherwise.
pub open spec fn classify(path: Seq<ComponentV>, is_file: bool) -> Option<EntryKind> {
    if under_datapacks(path) {
        Some(EntryKind::Datapack)
    } else if !is_file {
        None
    } else if is_region(path, is_file) {
        Some(EntryKind::Region)
    } else if is_scoreboard(path, is_file) {
        Some(EntryKind::Scoreboard)
    } else if is_level(path, is_file) {
        Some(EntryKind::Level)
    } else {
        Some(EntryKind::File)
    }
}

/// A path is absorbed when a directory above it is an entry already.
pub open spec fn absorbed(path: Seq<ComponentV>) -> bool {
    exists|k: int| 0 <= k < path.len() && classify(#[trigger] path.subrange(0, k), false) is Some
}

/// The kind of entry that a visited path becomes: none where a directory
/// above it has claimed the subtree, else what `classify` says.
pub open spec fn claims(path: Seq<ComponentV>, is_file: bool) -> Option<EntryKind> {
    if absorbed(path) {
        None
    } else {
        classify(path, is_file)
    }
}

/// What an `Entry` stands for: its kind and its source path.
pub struct EntryV {
    pub kind: EntryKind,
    pub path: Seq<ComponentV>,
}

/// The entries that a walk yields, in the order of the visited paths.
pub open spec fn discovered(found: Seq<Found>) -> Seq<EntryV>
    decreases found.len(),
{
    if found.len() == 0 {
        Seq::empty()
    } else {
        let rest = discovered(found.drop_last());
        let last = found.last();
        match claims(last.path@, last.is_file) {
            Some(kind) => rest.push(EntryV { kind, path: last.path@ }),
            None => rest,
        }
    }
}

/// The entries of `entries`, each by its view.
pub open spec fn entry_views(entries: Seq<Entry>) -> Seq<EntryV> {
    Seq::new(entries.len(), |i: int| entries[i]@)
}

impl ExtraEntry {
    /// The source of this entry.
    pub open spec fn source(&self) -> Seq<ComponentV> {
        match self {
            ExtraEntry::Short(path) => path@,
            ExtraEntry::Full(from, _) => from@,
        }
    }

    /// The source path of this entry.
    pub fn path(&self) -> (r: &PackPath)
        ensures
            r@ == self.source(),
    {
        match self {
            ExtraEntry::Short(path) => path,
            ExtraEntry::Full(from, _) => from,
        }
    }

    /// Whether two extra entries are of the same form, with the same
    /// paths.
    pub open spec fn same_as(&self, other: ExtraEntry) -> bool {
        match (*self, other) {
            (ExtraEntry::Short(a), ExtraEntry::Short(b)) => a@ == b@,
            (ExtraEntry::Full(a, c), ExtraEntry::Full(b, d)) => a@ == b@ && c@ == d@,
            _ => false,
        }
    }

    /// A copy of this entry.
    pub fn duplicate(&self) -> (r: ExtraEntry)
        ensures
            r.same_as(*self),
    {
        match self {
            ExtraEntry::Short(path) => ExtraEntry::Short(path.duplicate()),
            ExtraEntry::Full(from, to) => ExtraEntry::Full(from.duplicate(), to.duplicate()),
        }
    }

    /// This entry with `resolved` as its source, which is the canonical
    /// form of the present source; the target is kept.
    pub fn canonicalize(&self, resolved: PackPath) -> (r: ExtraEntry)
        ensures
            r.source() == resolved@,
            match (self, r) {
                (ExtraEntry::Short(_), ExtraEntry::Short(_)) => true,
                (ExtraEntry::Full(_, to), ExtraEntry::Full(_, kept)) => kept@ == to@,
                _ => false,
            },
    {
        match self {
            ExtraEntry::Short(_) => ExtraEntry::Short(resolved),
            ExtraEntry::Full(_, to) => ExtraEntry::Full(resolved, to.duplicate()),
        }
    }
}

impl View for Entry {
    type V = EntryV;

    open spec fn view(&self) -> EntryV {
        match self {
            Entry::Datapack(e) => EntryV { kind: EntryKind::Datapack, path: e.0@ },
            Entry::Extra(e) => EntryV { kind: EntryKind::Extra, path: e.source() },
            Entry::File(e) => EntryV { kind: EntryKind::File, path: e.0@ },
            Entry::Level(e) => EntryV { kind: EntryKind::Level, path: e.0@ },
            Entry::Region(e) => EntryV { kind: EntryKind::Region, path: e.0@ },
            Entry::Resourcepack(e) => EntryV { kind: EntryKind::Resourcepack, path: e.0@ },
            Entry::Scoreboard(e) => EntryV { kind: EntryKind::Scoreboard, path: e.0@ },
        }
    }
}

/// What `Entry::guess` returns for a path: the entry of the kind that
/// `classify` gives, over that same path, or nothing.
pub open spec fn guessed(path: Seq<ComponentV>, is_file: bool, r: Option<Entry>) -> bool {
    match r {
        Some(entry) => classify(path, is_file) == Some(entry@.kind) && entry@.path == path,
        None => classify(path, is_file) is None,
    }
}

/// Whether `path` lies below `./datapacks`.
pub fn below_datapacks(path: &PackPath) -> (r: bool)
    ensures
        r == under_datapacks(path@),
{
    let dir = PackPath::current().child("datapacks");
    assert(dir@ =~= datapacks_dir());
    path.len() > 2 && path.starts_with(&dir)
}

/// Whether the file name of `path` is `name`.
pub fn named(path: &PackPath, name: &str) -> (r: bool)
    ensures
        r == (file_name_spec(path@) == Some(name@)),
{
    match path.file_name() {
        Some(found) => same_text(found.as_str(), name),
        None => false,
    }
}

/// Whether the extension of `path` is `ext`.
pub fn has_extension(path: &PackPath, ext: &str) -> (r: bool)
    ensures
        r == (extension_spec(path@) == Some(ext@)),
{
    match path.extension() {
        Some(found) => same_text(found.as_str(), ext),
        None => false,
    }
}

impl ResourcepackPackager {
    /// Whether the resourcepack can be packaged: its source has to exist.
    pub fn supports(&self, exists: bool) -> (r: bool)
        ensures
            r == exists,
    {
        exists
    }
}

impl DataPackEntry {
    /// The datapack at `path`, if the path lies directly in a directory
    /// named `datapacks`.
    pub fn try_create(path: &PackPath) -> (r: Option<DataPackEntry>)
        ensures
            r is Some <==> in_datapacks(path@),
            r matches Some(entry) ==> entry.path@ == path@,
    {
        let n: usize = path.len();
        if n < 2 {
            return None;
        }
        let inside: bool = match &path.parts[n - 2] {
            crate::path::Component::Normal(name) => same_text(name.as_str(), "datapacks"),
            _ => false,
        };
        assert(path@[n - 2] == path.parts@[n - 2]@);
        if inside {
            Some(DataPackEntry { path: path.duplicate() })
        } else {
            None
        }
    }
}

impl ResourcePackEntry {
    /// The resourcepack at `path`.
    pub fn create(path: &PackPath) -> (r: ResourcePackEntry)
        ensures
            r.path@ == path@,
    {
        ResourcePackEntry { path: path.duplicate() }
    }
}

impl DatapackPackager {
    /// Whether `entry` is a datapack or lies inside one.
    pub fn supports(&self, entry: &PackPath) -> (r: bool)
        ensures
            r == under_datapacks(entry@),
    {
        below_datapacks(entry)
    }
}

impl RegionPackager {
    /// Whether `entry` is a region container.
    pub fn supports(&self, entry: &PackPath, is_file: bool) -> (r: bool)
        ensures
            r == is_region(entry@, is_file),
    {
        is_file && has_extension(entry, "mca")
    }
}

impl ScoreboardPackager {
    /// Whether `entry` is the scoreboard.
    pub fn supports(&self, entry: &PackPath, is_file: bool) -> (r: bool)
        ensures
            r == is_scoreboard(entry@, is_file),
    {
        is_file && named(entry, "scoreboard.dat")
    }
}

impl LevelPackager {
    /// Whether `entry` is the level.
    pub fn supports(&self, entry: &PackPath, is_file: bool) -> (r: bool)
        ensures
            r == is_level(entry@, is_file),
    {
        is_file && named(entry, "level.dat")
    }
}

impl FilePackager {
    /// Whether `entry` is a regular file.
    pub fn supports(&self, entry: &PackPath, is_file: bool) -> (r: bool)
        ensures
            r == is_file,
    {
        is_file
    }
}

impl Entry {
    /// The kind of this entry.
    pub fn kind(&self) -> (r: EntryKind)
        ensures
            r == self@.kind,
    {
        match self {
            Entry::Datapack(_) => EntryKind::Datapack,
            Entry::Extra(_) => EntryKind::Extra,
            Entry::File(_) => EntryKind::File,
            Entry::Level(_) => EntryKind::Level,
            Entry::Region(_) => EntryKind::Region,
            Entry::Resourcepack(_) => EntryKind::Resourcepack,
            Entry::Scoreboard(_) => EntryKind::Scoreboard,
        }
    }

    /// The source path of this entry.
    pub fn path(&self) -> (r: &PackPath)
        ensures
            r@ == self@.path,
    {
        match self {
            Entry::Datapack(entry) => &entry.0,
            Entry::Extra(entry) => entry.path(),
            Entry::File(entry) => &entry.0,
            Entry::Level(entry) => &entry.0,
            Entry::Region(entry) => &entry.0,
            Entry::Resourcepack(entry) => &entry.0,
            Entry::Scoreboard(entry) => &entry.0,
        }
    }

    /// The entry that the path `path` is, if it is one; `is_file` says
    /// whether the path names a regular file.
    pub fn guess(path: &PackPath, is_file: bool) -> (r: Option<Entry>)
        ensures
            guessed(path@, is_file, r),
    {
        if DatapackPackager.supports(path) {
            Some(Entry::Datapack(DatapackEntry(path.duplicate())))
        } else if RegionPackager.supports(path, is_file) {
            Some(Entry::Region(RegionEntry(path.duplicate())))
        } else if ScoreboardPackager.supports(path, is_file) {
            Some(Entry::Scoreboard(ScoreboardEntry(path.duplicate())))
        } else if LevelPackager.supports(path, is_file) {
            Some(Entry::Level(LevelEntry(path.duplicate())))
        } else if FilePackager.supports(path, is_file) {
            Some(Entry::File(FileEntry(path.duplicate())))
        } else {
            None
        }
    }

    /// Whether a directory above `path` is an entry already, so that the
    /// path belongs to that entry.
    pub fn is_absorbed(path: &PackPath) -> (r: bool)
        ensures
            r == absorbed(path@),
    {
        let r: bool = path.len() > 3 && below_datapacks(path);
        proof {
            if r {
                let above = path@.subrange(0, 3);
                assert(above.subrange(0, 2) =~= path@.subrange(0, 2));
                assert(classify(above, false) is Some);
            } else {
                assert forall|k: int| 0 <= k < path@.len() implies !(classify(
                    #[trigger] path@.subrange(0, k),
                    false,
                ) is Some) by {
                    let above = path@.subrange(0, k);
                    if under_datapacks(above) {
                        assert(above.subrange(0, 2) =~= path@.subrange(0, 2));
                    }
                }
            }
        }
        r
    }

    /// The entry that a visited path becomes in a walk: `guess`, but for
    /// the paths inside an entry.
    pub fn claim(path: &PackPath, is_file: bool) -> (r: Option<Entry>)
        ensures
            match r {
                Some(entry) => claims(path@, is_file) == Some(entry@.kind) && entry@.path == path@,
                None => claims(path@, is_file) is None,
            },
    {
        if Entry::is_absorbed(path) {
            None
        } else {
            Entry::guess(path, is_file)
        }
    }
}

/// The entries among the visited paths `found`, in their order: every
/// path that `classify` gives a kind, except those inside an entry.
pub fn world_entries(found: &Vec<Found>) -> (r: Vec<Entry>)
    ensures
        entry_views(r@) == discovered(found@),
{
    let mut entries: Vec<Entry> = Vec::new();
    let mut i: usize = 0;
    assert(found@.subrange(0, 0) =~= Seq::<Found>::empty());
    assert(entry_views(entries@) =~= Seq::<EntryV>::empty());
    while i < found.len()
        invariant
            i <= found@.len(),
            entry_views(entries@) == discovered(found@.subrange(0, i as int)),
        decreases found@.len() - i,
    {
        assert(found@.subrange(0, i + 1).drop_last() =~= found@.subrange(0, i as int));
        match Entry::claim(&found[i].path, found[i].is_file) {
            Some(entry) => {
                assert(entry_views(entries@.push(entry)) =~= entry_views(entries@).push(entry@));
                entries.push(entry);
            },
            None => {},
        }
        i += 1;
    }
    assert(found@.subrange(0, i as int) =~= found@);
    entries
}

/// Two classifications of one path agree: the entry is a function of the
/// path and of whether it names a regular file, and a path has one kind
/// or none.
pub proof fn lemma_guess_is_a_function(
    path: Seq<ComponentV>,
    is_file: bool,
    first: Option<Entry>,
    second: Option<Entry>,
)
    requires
        guessed(path, is_file, first),
        guessed(path, is_file, second),
    ensures
        first is Some <==> second is Some,
        first is Some ==> first->0@ == second->0@,
{
}

/// A datapack takes its whole subtree with it: no path below a datapack
/// becomes an entry of its own, whatever it is.
pub proof fn lemma_datapack_absorbs_subtree(
    datapack: Seq<ComponentV>,
    below: Seq<ComponentV>,
    is_file: bool,
)
    requires
        exists|f: bool| classify(datapack, f) == Some(EntryKind::Datapack),
        is_strict_prefix(datapack, below),
    ensures
        claims(below, is_file) is None,
{
    let k = datapack.len() as int;
    assert(below.subrange(0, k) == datapack);
    assert(classify(below.subrange(0, k), false) is Some);
}

/// Every entry of a walk is what its own path claims.
pub proof fn lemma_discovered_claims(found: Seq<Found>, i: int)
    requires
        0 <= i < discovered(found).len(),
    ensures
        exists|f: bool| claims(discovered(found)[i].path, f) == Some(discovered(found)[i].kind),
    decreases found.len(),
{
    let rest = discovered(found.drop_last());
    let entry = discovered(found)[i];
    if i < rest.len() {
        lemma_discovered_claims(found.drop_last(), i);
        assert(rest[i] == entry);
        let f = choose|f: bool| claims(rest[i].path, f) == Some(rest[i].kind);
        assert(claims(entry.path, f) == Some(entry.kind));
    } else {
        let last = found.last();
        assert(claims(entry.path, last.is_file) == Some(entry.kind));
    }
}

/// Among the entries of a walk, none lies below a datapack.
pub proof fn lemma_nothing_found_below_a_datapack(found: Seq<Found>, i: int, j: int)
    requires
        0 <= i < discovered(found).len(),
        0 <= j < discovered(found).len(),
        discovered(found)[i].kind == EntryKind::Datapack,
    ensures
        !is_strict_prefix(discovered(found)[i].path, discovered(found)[j].path),
{
    lemma_discovered_claims(found, i);
    lemma_discovered_claims(found, j);
    let above = discovered(found)[i];
    let below = discovered(found)[j];
    if is_strict_prefix(above.path, below.path) {
        let f = choose|f: bool| claims(above.path, f) == Some(above.kind);
        let g = choose|g: bool| claims(below.path, g) == Some(below.kind);
        assert(classify(above.path, f) == Some(EntryKind::Datapack));
        lemma_datapack_absorbs_subtree(above.path, below.path, g);
    }
}

} // verus!
