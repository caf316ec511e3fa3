//! The handlers of the entries: what a run does with each entry of a
//! world, told as steps for the caller to carry out and as the bytes to
//! write.
//!
//! A handler does not touch the file system. It is asked first what an
//! entry needs (`visit`), given what the caller has found out about the
//! source, and then, where the entry has to be read, what to write
//! (`finish`, `finish_tree`).

use vstd::prelude::*;
use crate::config::Config;
use crate::entries::{
    discovered, entry_views, DatapackEntry, Entry, EntryKind, ExtraEntry, FileEntry, Found,
    LevelEntry, RegionEntry, ResourcepackEntry, ScoreboardEntry,
};
use crate::level::{read_level, write_level, Level, LevelField};
use crate::nbt::{
    gunzip, has_unpackable_form, is_gzipped, load, loaded, packs, string_views, to_bytes,
    CodecError, Tag, TagV,
};
use crate::path::{prefix_spec, with_suffix_spec, ComponentV, PackPath, PathUtils};
use crate::region::{
    optimize, optimized, prunable, readable, refused, survivors, RegionError, HEADER_SIZE,
};
use crate::scoreboard::{read_scoreboard, write_scoreboard, Scoreboard, ScoreboardField};
use crate::storage::{
    archive_bytes, create_zip_from_dir, dir_members, extra_target, files_take, files_under,
    target_of,
    FileData, StorageError,
};

verus! {

/// What the caller has found out about the source of an entry.
#[derive(Debug, Clone, Copy)]
pub struct Probe {
    /// Whether the source is a regular file.
    pub is_file: bool,
    /// The size of the source in bytes, where it is a regular file.
    pub len: u64,
}

/// What an entry needs next.
#[derive(Debug)]
pub enum Step {
    /// Nothing: the entry leaves no trace in the output.
    Skip,
    /// The source file is copied to this place in the output.
    Copy(PackPath),
    /// Every file under the source directory is copied below this place.
    CopyTree(PackPath),
    /// The source file is read, and `finish` says what to write.
    Load,
    /// Every file under the source directory is read, and `finish_tree`
    /// says what to write.
    LoadTree,
}

/// What a [`Step`] stands for.
pub enum StepV {
    Skip,
    Copy(Seq<ComponentV>),
    CopyTree(Seq<ComponentV>),
    Load,
    LoadTree,
}

impl View for Step {
    type V = StepV;

    open spec fn view(&self) -> StepV {
        match self {
            Step::Skip => StepV::Skip,
            Step::Copy(to) => StepV::Copy(to@),
            Step::CopyTree(to) => StepV::CopyTree(to@),
            Step::Load => StepV::Load,
            Step::LoadTree => StepV::LoadTree,
        }
    }
}

/// What is written for an entry that was read.
#[derive(Debug)]
pub enum Output {
    /// Nothing.
    Skip,
    /// These bytes, at this place in the output.
    Write(PackPath, Vec<u8>),
}

/// What an [`Output`] stands for.
pub enum OutputV {
    Skip,
    Write(Seq<ComponentV>, Seq<u8>),
}

impl View for Output {
    type V = OutputV;

    open spec fn view(&self) -> OutputV {
        match self {
            Output::Skip => OutputV::Skip,
            Output::Write(to, contents) => OutputV::Write(to@, contents@),
        }
    }
}

/// Why an entry could not be packaged.
#[derive(Debug)]
pub enum PackError {
    /// The file could not be unpacked or parsed.
    Read(CodecError),
    /// The document could not be written or packed again.
    Write(CodecError),
    /// The level document lacks a part.
    Level(LevelField),
    /// The scoreboard document lacks a part.
    Scoreboard(ScoreboardField),
    /// The region could not be read or processed.
    Region(RegionError),
    /// The archive of a directory could not be made.
    Storage(StorageError),
    /// An entry of this kind is not made from the files of a directory.
    NotATree(EntryKind),
}

/// The handlers of a run, with its settings.
#[derive(Debug)]
pub struct Packager {
    pub config: Config,
}

/// Something that handles entries of the type `T`.
pub trait Visitor<T> {
    /// The step that this handler takes for the entry `entry`, given what
    /// `probe` says of its source.
    spec fn step(&self, entry: &T, probe: &Probe) -> StepV;

    /// What the entry `entry` needs, given what `probe` says of its
    /// source.
    fn visit(&self, entry: &T, probe: &Probe) -> (r: Step)
        ensures
            r@ == self.step(entry, probe),
    ;
}

/// An entry that a visitor can handle.
pub trait Packageable: Sized {
    /// Hands this entry to the visitor `visitor`: what comes back is the
    /// step that the visitor takes for it.
    fn package<V: Visitor<Self>>(&self, visitor: &V, probe: &Probe) -> (r: Step)
        ensures
            r@ == visitor.step(self, probe),
    {
        visitor.visit(self, probe)
    }
}

impl Packageable for DatapackEntry {

}

impl Packageable for ExtraEntry {

}

impl Packageable for FileEntry {

}

impl Packageable for LevelEntry {

}

impl Packageable for RegionEntry {

}

impl Packageable for ResourcepackEntry {

}

impl Packageable for ScoreboardEntry {

}

impl Packageable for Entry {

}

/// The directory that the settings put the output under.
pub open spec fn dirname(config: Config) -> Option<Seq<ComponentV>> {
    match config.dirname {
        Some(dir) => Some(dir@),
        None => None,
    }
}

/// The place in the output of the world's path `path`.
pub open spec fn place(path: Seq<ComponentV>, config: Config) -> Seq<ComponentV> {
    prefix_spec(path, dirname(config))
}

/// The place in the output of the resourcepack: `resources.zip`.
pub open spec fn resources_place(config: Config) -> Seq<ComponentV> {
    place(seq![ComponentV::Normal("resources.zip"@)], config)
}

/// A datapack that is a file is copied. One that is a directory is
/// archived where the settings ask for it, and copied file by file where
/// they do not.
pub open spec fn datapack_step(path: Seq<ComponentV>, config: Config, probe: Probe) -> StepV {
    if probe.is_file {
        StepV::Copy(place(path, config))
    } else if config.zip_datapacks {
        StepV::LoadTree
    } else {
        StepV::CopyTree(place(path, config))
    }
}

/// A region that is no larger than its two header tables holds no chunk
/// and is passed over. Any other is pruned where the settings ask for it,
/// and copied where they do not.
pub open spec fn region_step(path: Seq<ComponentV>, config: Config, probe: Probe) -> StepV {
    if probe.len <= HEADER_SIZE {
        StepV::Skip
    } else if config.clean_chunks {
        StepV::Load
    } else {
        StepV::Copy(place(path, config))
    }
}

/// A resourcepack that is a file is copied to its place; one that is a
/// directory is archived.
pub open spec fn resourcepack_step(config: Config, probe: Probe) -> StepV {
    if probe.is_file {
        StepV::Copy(resources_place(config))
    } else {
        StepV::LoadTree
    }
}

/// The place in the output of an extra entry: its target, under the
/// directory of the output like every other place.
pub open spec fn extra_place(entry: ExtraEntry, config: Config) -> Seq<ComponentV> {
    place(extra_target(entry), config)
}

/// The place in the output of the archive of a datapack that is a
/// directory: the place of the datapack, with `.zip` behind its name.
pub open spec fn archive_place(path: Seq<ComponentV>, config: Config) -> Seq<ComponentV> {
    with_suffix_spec(place(path, config), ".zip"@)
}

/// An extra entry is copied to its place: as a file, or file by file.
pub open spec fn extra_step(entry: ExtraEntry, config: Config, probe: Probe) -> StepV {
    if probe.is_file {
        StepV::Copy(extra_place(entry, config))
    } else {
        StepV::CopyTree(extra_place(entry, config))
    }
}

/// What an entry needs, by its kind.
pub open spec fn step_of(entry: Entry, config: Config, probe: Probe) -> StepV {
    match entry {
        Entry::Datapack(e) => datapack_step(e.0@, config, probe),
        Entry::Extra(e) => extra_step(e, config, probe),
        Entry::File(e) => StepV::Copy(place(e.0@, config)),
        Entry::Level(_) => StepV::Load,
        Entry::Region(e) => region_step(e.0@, config, probe),
        Entry::Resourcepack(_) => resourcepack_step(config, probe),
        Entry::Scoreboard(_) => StepV::Load,
    }
}

/// The number of entries that the settings add to those of the world.
pub open spec fn added(config: Config) -> int {
    config.extra_entries@.len() + if config.resourcepack is Some {
        1int
    } else {
        0int
    }
}

/// The entry `entry` is the extra entry `extra`.
pub open spec fn is_extra(entry: Entry, extra: ExtraEntry) -> bool {
    entry matches Entry::Extra(e) && e.same_as(extra)
}

/// The entry `entry` is the resourcepack at `path`.
pub open spec fn is_resourcepack(entry: Entry, path: Seq<ComponentV>) -> bool {
    entry matches Entry::Resourcepack(e) && e.0@ == path
}

/// The name that the settings give the world.
pub open spec fn world_name(config: Config) -> Option<Seq<char>> {
    match config.name {
        Some(name) => Some(name@),
        None => None,
    }
}

/// The level document after packaging, where the document holds a level.
pub open spec fn level_packaged(doc: TagV, config: Config) -> Result<
    TagV,
    LevelField,
> {
    match read_level(doc) {
        Ok(level) => Ok(
            write_level(
                crate::level::packaged(
                    level,
                    world_name(config),
                    config.reset_player,
                    config.zip_datapacks,
                ),
            ),
        ),
        Err(field) => Err(field),
    }
}

/// The scoreboard document after packaging, where the document holds a
/// scoreboard.
pub open spec fn scoreboard_packaged(doc: TagV, config: Config) -> Result<
    TagV,
    ScoreboardField,
> {
    match read_scoreboard(doc) {
        Ok(board) => Ok(
            write_scoreboard(
                crate::scoreboard::packaged(
                    board,
                    config.accepted_scores,
                    config.accepted_objectives,
                ),
            ),
        ),
        Err(field) => Err(field),
    }
}

/// What a compressed file is turned into: nothing where the file holds
/// no document; else the document after packaging, or the part that the
/// document lacks.
pub open spec fn level_outcome(packed: Seq<u8>, config: Config) -> Option<
    Result<TagV, LevelField>,
> {
    match loaded(packed) {
        Some(doc) => Some(level_packaged(doc, config)),
        None => None,
    }
}

/// The same for a scoreboard file.
pub open spec fn scoreboard_outcome(packed: Seq<u8>, config: Config) -> Option<
    Result<TagV, ScoreboardField>,
> {
    match loaded(packed) {
        Some(doc) => Some(scoreboard_packaged(doc, config)),
        None => None,
    }
}

/// What the result `r` of packaging the level file `packed` says: the
/// bytes that come out are the gzip stream of one of the forms of the
/// level document after packaging, and an error says what is wrong with
/// the file, or that the packaged document could not be written, or that
/// the form that was written could not be packed.
pub open spec fn level_result(
    packed: Seq<u8>,
    config: Config,
    r: Result<Seq<u8>, PackError>,
) -> bool {
    match r {
        Ok(out) => level_outcome(packed, config) matches Some(Ok(doc)) && packs(doc, out),
        Err(PackError::Read(CodecError::Gzip(_))) => gunzip(packed) is None,
        Err(PackError::Read(CodecError::Nbt(_))) => gunzip(packed) is Some && loaded(packed)
            is None,
        Err(PackError::Level(field)) => level_outcome(packed, config) == Some(
            Err::<TagV, LevelField>(field),
        ),
        Err(PackError::Write(CodecError::Nbt(_))) => level_outcome(packed, config) matches Some(
            Ok(_),
        ),
        Err(PackError::Write(CodecError::Gzip(_))) => level_outcome(packed, config) matches Some(
            Ok(doc),
        ) && has_unpackable_form(doc),
        Err(_) => false,
    }
}

/// The same for a scoreboard file.
pub open spec fn scoreboard_result(
    packed: Seq<u8>,
    config: Config,
    r: Result<Seq<u8>, PackError>,
) -> bool {
    match r {
        Ok(out) => scoreboard_outcome(packed, config) matches Some(Ok(doc)) && packs(doc, out),
        Err(PackError::Read(CodecError::Gzip(_))) => gunzip(packed) is None,
        Err(PackError::Read(CodecError::Nbt(_))) => gunzip(packed) is Some && loaded(packed)
            is None,
        Err(PackError::Scoreboard(field)) => scoreboard_outcome(packed, config) == Some(
            Err::<TagV, ScoreboardField>(field),
        ),
        Err(PackError::Write(CodecError::Nbt(_))) => scoreboard_outcome(
            packed,
            config,
        ) matches Some(Ok(_)),
        Err(PackError::Write(CodecError::Gzip(_))) => scoreboard_outcome(
            packed,
            config,
        ) matches Some(Ok(doc)) && has_unpackable_form(doc),
        Err(_) => false,
    }
}

/// The result `r`, with the bytes it gave by their view.
pub open spec fn outcome(r: Result<Vec<u8>, PackError>) -> Result<Seq<u8>, PackError> {
    match r {
        Ok(bytes) => Ok(bytes@),
        Err(e) => Err(e),
    }
}

/// The result `r`, with the bytes it writes: none where it writes
/// nothing.
pub open spec fn written_bytes(r: Result<Output, PackError>) -> Result<Seq<u8>, PackError> {
    match r {
        Ok(Output::Write(_, bytes)) => Ok(bytes@),
        Ok(Output::Skip) => Ok(Seq::empty()),
        Err(e) => Err(e),
    }
}

/// What is written for a region of the bytes `bytes`: nothing where the
/// region holds no chunk, before or after pruning; the bytes as they are
/// where the settings ask for no pruning; else the pruned container.
pub open spec fn region_output(
    bytes: Seq<u8>,
    to: Seq<ComponentV>,
    config: Config,
    r: Result<Output, PackError>,
) -> bool {
    if bytes.len() <= HEADER_SIZE {
        r matches Ok(Output::Skip)
    } else if !config.clean_chunks {
        r matches Ok(out) && out@ == OutputV::Write(to, bytes)
    } else {
        match r {
            Ok(Output::Skip) => readable(bytes) && prunable(bytes) && survivors(
                bytes,
                string_views(config.ignored_blocks@),
            ).len() == 0,
            Ok(Output::Write(place, out)) => place@ == to && readable(bytes) && survivors(
                bytes,
                string_views(config.ignored_blocks@),
            ).len() > 0 && optimized(bytes, string_views(config.ignored_blocks@), out@),
            Err(PackError::Region(e)) => refused(bytes, string_views(config.ignored_blocks@), e),
            Err(_) => false,
        }
    }
}

impl Packager {
    /// The handlers of a run with the settings `config`.
    pub fn new(config: Config) -> (r: Packager)
        ensures
            r.config == config,
    {
        Packager { config }
    }

    /// The place in the output of the world's path `path`.
    pub fn place(&self, path: &PackPath) -> (r: PackPath)
        ensures
            r@ == place(path@, self.config),
    {
        match &self.config.dirname {
            Some(dir) => path.prefix(Some(dir)),
            None => path.prefix(None),
        }
    }

    /// The place in the output of the resourcepack.
    pub fn resources_place(&self) -> (r: PackPath)
        ensures
            r@ == resources_place(self.config),
    {
        let name = PackPath::new().child("resources.zip");
        assert(name@ =~= seq![ComponentV::Normal("resources.zip"@)]);
        self.place(&name)
    }

    /// The level document `tag` after packaging. Fails exactly when the
    /// document holds no level, with the part that it lacks.
    pub fn package_level(&self, tag: Tag) -> (r: Result<Tag, LevelField>)
        ensures
            match r {
                Ok(out) => level_packaged(tag@, self.config) == Ok::<TagV, LevelField>(
                    out@,
                ),
                Err(field) => level_packaged(tag@, self.config) == Err::<
                    TagV,
                    LevelField,
                >(field),
            },
    {
        match Level::from_tag(tag) {
            Ok(level) => {
                let mut level = level;
                level.package(&self.config);
                Ok(level.into_tag())
            },
            Err(field) => Err(field),
        }
    }

    /// The scoreboard document `tag` after packaging. Fails exactly when
    /// the document holds no scoreboard, with the part that it lacks.
    pub fn package_scoreboard(&self, tag: Tag) -> (r: Result<Tag, ScoreboardField>)
        ensures
            match r {
                Ok(out) => scoreboard_packaged(tag@, self.config) == Ok::<
                    TagV,
                    ScoreboardField,
                >(out@),
                Err(field) => scoreboard_packaged(tag@, self.config) == Err::<
                    TagV,
                    ScoreboardField,
                >(field),
            },
    {
        match Scoreboard::from_tag(tag) {
            Ok(board) => {
                let mut board = board;
                board.package(&self.config);
                Ok(board.into_tag())
            },
            Err(field) => Err(field),
        }
    }

    /// The level file `bytes` after packaging: unpacked, changed as
    /// `package_level` says, and packed again. An error says what is wrong
    /// with the file.
    pub fn level_bytes(&self, bytes: &[u8]) -> (r: Result<Vec<u8>, PackError>)
        ensures
            level_result(bytes@, self.config, outcome(r)),
            r matches Ok(packed) ==> is_gzipped(packed@),
    {
        let tag = match load(bytes) {
            Ok(tag) => tag,
            Err(e) => {
                return Err(PackError::Read(e));
            },
        };
        let out = match self.package_level(tag) {
            Ok(out) => out,
            Err(field) => {
                return Err(PackError::Level(field));
            },
        };
        match to_bytes(out) {
            Ok(packed) => Ok(packed),
            Err(e) => Err(PackError::Write(e)),
        }
    }

    /// The scoreboard file `bytes` after packaging: unpacked, changed as
    /// `package_scoreboard` says, and packed again. An error says what is
    /// wrong with the file.
    pub fn scoreboard_bytes(&self, bytes: &[u8]) -> (r: Result<Vec<u8>, PackError>)
        ensures
            scoreboard_result(bytes@, self.config, outcome(r)),
            r matches Ok(packed) ==> is_gzipped(packed@),
    {
        let tag = match load(bytes) {
            Ok(tag) => tag,
            Err(e) => {
                return Err(PackError::Read(e));
            },
        };
        let out = match self.package_scoreboard(tag) {
            Ok(out) => out,
            Err(field) => {
                return Err(PackError::Scoreboard(field));
            },
        };
        match to_bytes(out) {
            Ok(packed) => Ok(packed),
            Err(e) => Err(PackError::Write(e)),
        }
    }

    /// What is written for the region `entry`, whose file holds `bytes`.
    /// A region that is written is larger than its two header tables.
    pub fn region_output(&self, entry: &RegionEntry, bytes: Vec<u8>) -> (r: Result<
        Output,
        PackError,
    >)
        ensures
            region_output(bytes@, place(entry.0@, self.config), self.config, r),
            r matches Ok(Output::Write(_, contents)) ==> contents@.len() > HEADER_SIZE,
    {
        if bytes.len() <= HEADER_SIZE {
            return Ok(Output::Skip);
        }
        let to = self.place(&entry.0);
        if !self.config.clean_chunks {
            return Ok(Output::Write(to, bytes));
        }
        match optimize(bytes, &self.config) {
            Ok(out) => {
                if out.len() <= HEADER_SIZE {
                    Ok(Output::Skip)
                } else {
                    Ok(Output::Write(to, out))
                }
            },
            Err(e) => Err(PackError::Region(e)),
        }
    }

    /// What is written for the entry `entry`, whose source file holds
    /// `bytes`: the level and the scoreboard after packaging, a region as
    /// `region_output` says, and the bytes as they are for every other
    /// entry, each at its place.
    pub fn finish(&self, entry: &Entry, bytes: Vec<u8>) -> (r: Result<Output, PackError>)
        ensures
            match *entry {
                Entry::Datapack(e) => r matches Ok(out) && out@ == OutputV::Write(
                    place(e.0@, self.config),
                    bytes@,
                ),
                Entry::Extra(e) => r matches Ok(out) && out@ == OutputV::Write(
                    extra_place(e, self.config),
                    bytes@,
                ),
                Entry::File(e) => r matches Ok(out) && out@ == OutputV::Write(
                    place(e.0@, self.config),
                    bytes@,
                ),
                Entry::Level(e) => level_result(bytes@, self.config, written_bytes(r))
                    && match r {
                    Ok(Output::Write(to, packed)) => to@ == place(e.0@, self.config)
                        && is_gzipped(packed@),
                    Ok(Output::Skip) => false,
                    Err(_) => true,
                },
                Entry::Region(e) => region_output(
                    bytes@,
                    place(e.0@, self.config),
                    self.config,
                    r,
                ),
                Entry::Resourcepack(_) => r matches Ok(out) && out@ == OutputV::Write(
                    resources_place(self.config),
                    bytes@,
                ),
                Entry::Scoreboard(e) => scoreboard_result(
                    bytes@,
                    self.config,
                    written_bytes(r),
                ) && match r {
                    Ok(Output::Write(to, packed)) => to@ == place(e.0@, self.config)
                        && is_gzipped(packed@),
                    Ok(Output::Skip) => false,
                    Err(_) => true,
                },
            },
    {
        match entry {
            Entry::Datapack(e) => Ok(Output::Write(self.place(&e.0), bytes)),
            Entry::Extra(e) => Ok(Output::Write(self.place(&target_of(e)), bytes)),
            Entry::File(e) => Ok(Output::Write(self.place(&e.0), bytes)),
            Entry::Level(e) => match self.level_bytes(bytes.as_slice()) {
                Ok(packed) => Ok(Output::Write(self.place(&e.0), packed)),
                Err(err) => Err(err),
            },
            Entry::Region(e) => self.region_output(e, bytes),
            Entry::Resourcepack(_) => Ok(Output::Write(self.resources_place(), bytes)),
            Entry::Scoreboard(e) => match self.scoreboard_bytes(bytes.as_slice()) {
                Ok(packed) => Ok(Output::Write(self.place(&e.0), packed)),
                Err(err) => Err(err),
            },
        }
    }

    /// What is written for the entry `entry`, a directory whose files are
    /// `files`: the archive of the directory, for a datapack at its place
    /// with `.zip` behind its name, for the resourcepack at its own place.
    /// The archive is made whenever the files lie under the directory and
    /// can all be written as members. Any other entry is not made from a
    /// directory.
    pub fn finish_tree(&self, entry: &Entry, files: &Vec<FileData>) -> (r: Result<
        Output,
        PackError,
    >)
        ensures
            match r {
                Ok(Output::Write(to, contents)) => {
                    &&& match *entry {
                        Entry::Datapack(e) => to@ == archive_place(e.0@, self.config),
                        Entry::Resourcepack(_) => to@ == resources_place(self.config),
                        _ => false,
                    }
                    &&& files_under(entry@.path, files@, files@.len() as int)
                    &&& contents@ == archive_bytes(
                        Seq::empty(),
                        dir_members(entry@.path, files@, files@.len() as int),
                    )
                },
                Ok(Output::Skip) => false,
                Err(PackError::NotATree(kind)) => kind == entry@.kind && !(entry is Datapack)
                    && !(entry is Resourcepack),
                Err(PackError::Storage(StorageError::Outside(i))) => (entry is Datapack
                    || entry is Resourcepack) && i < files@.len() && !crate::path::is_prefix(
                    entry@.path,
                    files@[i as int].path@,
                ),
                Err(e) => (entry is Datapack || entry is Resourcepack) && e is Storage
                    && !files_take(files@, files@.len() as int),
            },
    {
        match entry {
            Entry::Datapack(e) => match create_zip_from_dir(&e.0, files) {
                Ok(contents) => Ok(Output::Write(self.place(&e.0).with_suffix(".zip"), contents)),
                Err(err) => Err(PackError::Storage(err)),
            },
            Entry::Resourcepack(e) => match create_zip_from_dir(&e.0, files) {
                Ok(contents) => Ok(Output::Write(self.resources_place(), contents)),
                Err(err) => Err(PackError::Storage(err)),
            },
            _ => Err(PackError::NotATree(entry.kind())),
        }
    }

    /// The entries of the world, among the paths `found` that a walk of it
    /// has visited.
    pub fn world_entries(&self, found: &Vec<Found>) -> (r: Vec<Entry>)
        ensures
            entry_views(r@) == discovered(found@),
    {
        crate::entries::world_entries(found)
    }

    /// Every entry of a run: those of the world among the visited paths
    /// `found`, then those that the settings add.
    pub fn entries(&self, found: &Vec<Found>) -> (r: Vec<Entry>)
        ensures
            r@.len() == discovered(found@).len() + added(self.config),
            entry_views(r@).subrange(0, discovered(found@).len() as int) == discovered(found@),
            forall|i: int|
                0 <= i < self.config.extra_entries@.len() ==> is_extra(
                    #[trigger] r@[discovered(found@).len() + i],
                    self.config.extra_entries@[i],
                ),
            self.config.resourcepack is Some ==> is_resourcepack(
                r@.last(),
                self.config.resourcepack->0@,
            ),
    {
        let mut entries = self.world_entries(found);
        let mut extra = self.extra_entries();
        let ghost world = entries@;
        let ghost added = extra@;
        entries.append(&mut extra);
        assert(entries@ == world + added);
        assert(entry_views(entries@).subrange(0, world.len() as int) =~= entry_views(world));
        assert forall|i: int| 0 <= i < self.config.extra_entries@.len() implies is_extra(
            #[trigger] entries@[discovered(found@).len() + i],
            self.config.extra_entries@[i],
        ) by {
            assert(entries@[world.len() + i] == added[i]);
        }
        proof {
            if self.config.resourcepack is Some {
                assert(entries@.last() == added.last());
            }
        }
        entries
    }

    /// The entries that the settings add to those of the world: the extra
    /// entries, then the resourcepack.
    pub fn extra_entries(&self) -> (r: Vec<Entry>)
        ensures
            r@.len() == added(self.config),
            forall|i: int|
                0 <= i < self.config.extra_entries@.len() ==> is_extra(
                    #[trigger] r@[i],
                    self.config.extra_entries@[i],
                ),
            self.config.resourcepack is Some ==> is_resourcepack(
                r@.last(),
                self.config.resourcepack->0@,
            ),
    {
        let mut entries: Vec<Entry> = Vec::new();
        let mut i: usize = 0;
        while i < self.config.extra_entries.len()
            invariant
                i <= self.config.extra_entries@.len(),
                entries@.len() == i,
                forall|j: int|
                    0 <= j < i ==> is_extra(#[trigger] entries@[j], self.config.extra_entries@[j]),
            decreases self.config.extra_entries@.len() - i,
        {
            entries.push(Entry::Extra(self.config.extra_entries[i].duplicate()));
            i += 1;
        }
        match &self.config.resourcepack {
            Some(path) => {
                entries.push(Entry::Resourcepack(ResourcepackEntry(path.duplicate())));
            },
            None => {},
        }
        entries
    }
}

impl Visitor<DatapackEntry> for Packager {
    open spec fn step(&self, entry: &DatapackEntry, probe: &Probe) -> StepV {
        datapack_step(entry.0@, self.config, *probe)
    }

    fn visit(&self, entry: &DatapackEntry, probe: &Probe) -> (r: Step) {
        if probe.is_file {
            Step::Copy(self.place(&entry.0))
        } else if self.config.zip_datapacks {
            Step::LoadTree
        } else {
            Step::CopyTree(self.place(&entry.0))
        }
    }
}

impl Visitor<ExtraEntry> for Packager {
    open spec fn step(&self, entry: &ExtraEntry, probe: &Probe) -> StepV {
        extra_step(*entry, self.config, *probe)
    }

    fn visit(&self, entry: &ExtraEntry, probe: &Probe) -> (r: Step) {
        let to = self.place(&target_of(entry));
        if probe.is_file {
            Step::Copy(to)
        } else {
            Step::CopyTree(to)
        }
    }
}

impl Visitor<FileEntry> for Packager {
    open spec fn step(&self, entry: &FileEntry, probe: &Probe) -> StepV {
        StepV::Copy(place(entry.0@, self.config))
    }

    fn visit(&self, entry: &FileEntry, probe: &Probe) -> (r: Step) {
        Step::Copy(self.place(&entry.0))
    }
}

impl Visitor<LevelEntry> for Packager {
    open spec fn step(&self, entry: &LevelEntry, probe: &Probe) -> StepV {
        StepV::Load
    }

    fn visit(&self, entry: &LevelEntry, probe: &Probe) -> (r: Step) {
        Step::Load
    }
}

impl Visitor<RegionEntry> for Packager {
    open spec fn step(&self, entry: &RegionEntry, probe: &Probe) -> StepV {
        region_step(entry.0@, self.config, *probe)
    }

    fn visit(&self, entry: &RegionEntry, probe: &Probe) -> (r: Step) {
        if probe.len <= HEADER_SIZE as u64 {
            Step::Skip
        } else if self.config.clean_chunks {
            Step::Load
        } else {
            Step::Copy(self.place(&entry.0))
        }
    }
}

impl Visitor<ResourcepackEntry> for Packager {
    open spec fn step(&self, entry: &ResourcepackEntry, probe: &Probe) -> StepV {
        resourcepack_step(self.config, *probe)
    }

    fn visit(&self, entry: &ResourcepackEntry, probe: &Probe) -> (r: Step) {
        if probe.is_file {
            Step::Copy(self.resources_place())
        } else {
            Step::LoadTree
        }
    }
}

impl Visitor<ScoreboardEntry> for Packager {
    open spec fn step(&self, entry: &ScoreboardEntry, probe: &Probe) -> StepV {
        StepV::Load
    }

    fn visit(&self, entry: &ScoreboardEntry, probe: &Probe) -> (r: Step) {
        Step::Load
    }
}

impl Visitor<Entry> for Packager {
    open spec fn step(&self, entry: &Entry, probe: &Probe) -> StepV {
        step_of(*entry, self.config, *probe)
    }

    fn visit(&self, entry: &Entry, probe: &Probe) -> (r: Step) {
        match entry {
            Entry::Datapack(e) => self.visit(e, probe),
            Entry::Extra(e) => self.visit(e, probe),
            Entry::File(e) => self.visit(e, probe),
            Entry::Level(e) => self.visit(e, probe),
            Entry::Region(e) => self.visit(e, probe),
            Entry::Resourcepack(e) => self.visit(e, probe),
            Entry::Scoreboard(e) => self.visit(e, probe),
        }
    }
}

} // verus!
