//! The sinks that take the output of a run: a directory that mirrors the
//! world, or a single archive.
//!
//! The archive is built in memory by `zip`; what is decided here is the
//! name of each member and what goes into it. Writing into a directory is
//! left to the caller, who is told the place of each file.

use vstd::prelude::*;
use crate::entries::ExtraEntry;
use crate::path::{
    file_name_spec, is_prefix, join_spec, normalize_spec, text_spec, ComponentV, PackPath,
    PathUtils,
};

verus! {

/// `zip::result::ZipError`, what the archive reports.
#[verifier::external_type_specification]
#[verifier::external_body]
pub struct ExZipError(zip::result::ZipError);

/// A `zip::ZipWriter` over a cursor on a buffer in memory. The writer is
/// held in a struct of its own because its type is bounded by the traits
/// of its stream, which cannot be named here.
#[verifier::external_body]
pub struct Archive {
    inner: zip::ZipWriter<std::io::Cursor<Vec<u8>>>,
}

/// A member of an archive.
pub struct MemberV {
    pub name: Seq<char>,
    pub contents: Seq<u8>,
}

/// The members that were written to an archive, in the order in which they
/// were started.
pub uninterp spec fn members(archive: Archive) -> Seq<MemberV>;

/// The bytes that the buffer of an archive held when the archive was made.
pub uninterp spec fn seed(archive: Archive) -> Seq<u8>;

/// The bytes of a finished archive that was made over the buffer `seed`
/// and holds `members`.
pub uninterp spec fn archive_bytes(seed: Seq<u8>, members: Seq<MemberV>) -> Seq<u8>;

/// Whether the archive is ready for its next step: it was not finished,
/// no call on it has failed, and its last member, if it has one, can be
/// closed.
pub uninterp spec fn ready(archive: Archive) -> bool;

/// Whether a member can hold these bytes: written to a member that was
/// just started they are all taken, and the member can be closed behind
/// them. It depends on the bytes alone: on how many they are, and on how
/// many the compressor makes of them.
pub uninterp spec fn storable(contents: Seq<u8>) -> bool;

/// Whether a member can be written with these bytes: there are none, or
/// a member can hold them.
pub open spec fn takes(contents: Seq<u8>) -> bool {
    contents.len() == 0 || storable(contents)
}

/// `ZipWriter::new` on a cursor over a copy of the buffer: an archive
/// without members, ready for the first.
#[verifier::external_body]
pub(crate) fn archive_new(buffer: &[u8]) -> (r: Archive)
    ensures
        members(r) == Seq::<MemberV>::empty(),
        seed(r) == buffer@,
        ready(r),
{
    Archive { inner: zip::ZipWriter::new(std::io::Cursor::new(buffer.to_vec())) }
}

/// `ZipWriter::start_file` with the default options at compression level
/// 9: where it succeeds, the archive has one more member, of that name and
/// still empty. It closes the member before, and then writes a header into
/// the buffer: on an archive that is ready it succeeds, and the archive
/// stays ready.
#[verifier::external_body]
pub(crate) fn archive_start(archive: &mut Archive, name: &str) -> (r: Result<
    (),
    zip::result::ZipError,
>)
    ensures
        seed(*final(archive)) == seed(*old(archive)),
        r is Ok ==> members(*final(archive)) == members(*old(archive)).push(
            MemberV { name: name@, contents: Seq::empty() },
        ),
        ready(*old(archive)) ==> r is Ok && ready(*final(archive)),
{
    let options = zip::write::FileOptions::default().compression_level(Some(9));
    archive.inner.start_file(name, options)
}

/// `write_all` on the `ZipWriter`. Without bytes it does nothing and
/// succeeds. With bytes, where it succeeds, a member was started and the
/// bytes are added to the last one. On an archive that is ready, bytes
/// that a member can hold are taken by a member that was just started,
/// and the archive stays ready.
#[verifier::external_body]
pub(crate) fn archive_write(archive: &mut Archive, contents: &[u8]) -> (r: Result<
    (),
    std::io::Error,
>)
    ensures
        seed(*final(archive)) == seed(*old(archive)),
        contents@.len() == 0 ==> r is Ok && members(*final(archive)) == members(*old(archive))
            && ready(*final(archive)) == ready(*old(archive)),
        contents@.len() > 0 && r is Ok ==> members(*old(archive)).len() > 0 && members(
            *final(archive),
        ) == members(*old(archive)).drop_last().push(
            MemberV {
                name: members(*old(archive)).last().name,
                contents: members(*old(archive)).last().contents + contents@,
            },
        ),
        ready(*old(archive)) && members(*old(archive)).len() > 0 && members(
            *old(archive),
        ).last().contents.len() == 0 && storable(contents@) ==> r is Ok && ready(
            *final(archive),
        ),
{
    std::io::Write::write_all(&mut archive.inner, contents)
}

/// `ZipWriter::finish`, and the buffer of the cursor that it returns. The
/// contract names the bytes: no time stamp goes into them, so they depend
/// on the buffer and the members alone. It closes the last member and
/// writes the directory into the buffer: on an archive that is ready it
/// succeeds.
#[verifier::external_body]
pub(crate) fn archive_finish(archive: &mut Archive) -> (r: Result<Vec<u8>, zip::result::ZipError>)
    ensures
        r matches Ok(bytes) ==> bytes@ == archive_bytes(
            seed(*old(archive)),
            members(*old(archive)),
        ),
        ready(*old(archive)) ==> r is Ok,
{
    archive.inner.finish().map(std::io::Cursor::into_inner)
}

/// Why a sink could not take what it was given.
#[derive(Debug)]
pub enum StorageError {
    /// The archive refused a member or could not be finished.
    Zip(zip::result::ZipError),
    /// The contents of a member could not be written.
    Io(std::io::Error),
    /// The file with this index does not lie under the directory that is
    /// copied or archived.
    Outside(usize),
}

/// The path `file` without a leading `./`.
pub open spec fn stripped(file: Seq<ComponentV>) -> Seq<ComponentV> {
    if is_prefix(seq![ComponentV::CurDir], file) {
        file.subrange(1, file.len() as int)
    } else {
        file
    }
}

/// The name of the member that holds the file `file`: the text of the
/// path, without a leading `./`.
pub open spec fn member_name(file: Seq<ComponentV>) -> Seq<char> {
    text_spec(stripped(file))
}

/// The name of the member that holds the file `file` in an archive that
/// puts its members under the directory `dir`.
pub open spec fn member_under(file: Seq<ComponentV>, dir: Option<Seq<ComponentV>>) -> Seq<char> {
    match dir {
        Some(d) => text_spec(join_spec(d, stripped(file))),
        None => member_name(file),
    }
}

/// A file with its contents.
#[derive(Debug)]
pub struct FileData {
    pub path: PackPath,
    pub contents: Vec<u8>,
}

/// A sink that is built in memory.
pub trait InMemoryStorage: Sized {
    /// A sink over a copy of `buffer`.
    fn new(buffer: &[u8]) -> Self;
}

/// A sink that stands for a place in the file system.
pub trait FilesystemStorage: Sized {
    /// A sink at `path`.
    fn new(path: &PackPath) -> Self;
}

/// A sink that collects its files in a single compressed archive.
pub struct ZipStorage {
    pub archive: Archive,
    /// The directory to put every member under, for callers that hand
    /// files over by the paths they have in the world. The handlers of a
    /// run place their output themselves and need none.
    pub write_dir: Option<PackPath>,
}

impl ZipStorage {
    /// The members of the archive.
    pub open spec fn members(&self) -> Seq<MemberV> {
        members(self.archive)
    }

    /// The bytes over which the archive was made.
    pub open spec fn seed(&self) -> Seq<u8> {
        seed(self.archive)
    }

    /// Whether the archive is ready to take a member, or to be finished.
    pub open spec fn ready(&self) -> bool {
        ready(self.archive)
    }

    /// The directory that the members are put under.
    pub open spec fn dir(&self) -> Option<Seq<ComponentV>> {
        match self.write_dir {
            Some(d) => Some(d@),
            None => None,
        }
    }

    /// Writes `contents` as the member for the file `file`. An archive
    /// that is ready takes every member that can be written, and stays
    /// ready. Where this fails with `Io`, the member was started and may
    /// hold a part of the contents.
    pub fn write(&mut self, file: &PackPath, contents: &[u8]) -> (r: Result<(), StorageError>)
        ensures
            final(self).seed() == old(self).seed(),
            final(self).write_dir == old(self).write_dir,
            match r {
                Ok(_) => final(self).members() == old(self).members().push(
                    MemberV { name: member_under(file@, old(self).dir()), contents: contents@ },
                ),
                Err(e) => (e is Zip || e is Io) && !(old(self).ready() && takes(contents@)),
            },
            old(self).ready() && takes(contents@) ==> final(self).ready(),
    {
        let here = PackPath::current();
        let plain: PackPath = match file.strip_prefix(&here) {
            Some(rest) => rest,
            None => file.duplicate(),
        };
        assert(plain@ == stripped(file@));
        let name: String = match &self.write_dir {
            Some(dir) => dir.join(&plain).to_text(),
            None => plain.to_text(),
        };
        match archive_start(&mut self.archive, name.as_str()) {
            Ok(_) => {},
            Err(e) => {
                return Err(StorageError::Zip(e));
            },
        }
        match archive_write(&mut self.archive, contents) {
            Ok(_) => {
                assert(Seq::<u8>::empty() + contents@ =~= contents@);
                assert(old(self).members().push(
                    MemberV { name: name@, contents: Seq::empty() },
                ).drop_last() =~= old(self).members());
                Ok(())
            },
            Err(e) => Err(StorageError::Io(e)),
        }
    }

    /// Closes the archive and hands out its bytes. An archive that is
    /// ready can be finished.
    pub fn finish(&mut self) -> (r: Result<Vec<u8>, StorageError>)
        ensures
            match r {
                Ok(bytes) => bytes@ == archive_bytes(old(self).seed(), old(self).members()),
                Err(e) => e is Zip && !old(self).ready(),
            },
    {
        match archive_finish(&mut self.archive) {
            Ok(bytes) => Ok(bytes),
            Err(e) => Err(StorageError::Zip(e)),
        }
    }
}

impl InMemoryStorage for ZipStorage {
    fn new(buffer: &[u8]) -> (r: ZipStorage)
        ensures
            r.members() == Seq::<MemberV>::empty(),
            r.seed() == buffer@,
            r.dir() is None,
            r.ready(),
    {
        ZipStorage { archive: archive_new(buffer), write_dir: None }
    }
}

/// The place in the output of an extra entry: its own file name for the
/// short form, nothing where the source has none; the target for the full
/// form.
pub open spec fn extra_target(entry: ExtraEntry) -> Seq<ComponentV> {
    match entry {
        ExtraEntry::Short(path) => match file_name_spec(path@) {
            Some(name) => seq![ComponentV::Normal(name)],
            None => Seq::empty(),
        },
        ExtraEntry::Full(_, to) => to@,
    }
}

/// The place in the output of the extra entry `entry`.
pub fn target_of(entry: &ExtraEntry) -> (r: PackPath)
    ensures
        r@ == extra_target(*entry),
{
    match entry {
        ExtraEntry::Short(path) => match path.file_name() {
            Some(name) => {
                let r = PackPath::new().child(name.as_str());
                assert(r@ =~= seq![ComponentV::Normal(name@)]);
                r
            },
            None => PackPath::new(),
        },
        ExtraEntry::Full(_, to) => to.duplicate(),
    }
}

/// An extra file that was read, with the entry it belongs to.
#[derive(Debug)]
pub struct ExtraFile {
    pub entry: ExtraEntry,
    pub contents: Vec<u8>,
}

/// The members that seeding makes of the first `count` of `files`: each
/// under its target, in an archive that puts its members under `dir`.
pub open spec fn seeded(files: Seq<ExtraFile>, dir: Option<Seq<ComponentV>>, count: int) -> Seq<
    MemberV,
>
    decreases count,
{
    if count <= 0 {
        Seq::empty()
    } else {
        seeded(files, dir, count - 1).push(
            MemberV {
                name: member_under(extra_target(files[count - 1].entry), dir),
                contents: files[count - 1].contents@,
            },
        )
    }
}

/// Every one of the first `count` marks is set.
pub open spec fn all_set(marks: Seq<bool>, count: int) -> bool {
    forall|i: int| 0 <= i < count ==> marks[i]
}

/// Every one of the first `count` files can be written as a member.
pub open spec fn all_take(files: Seq<ExtraFile>, count: int) -> bool {
    forall|i: int| 0 <= i < count ==> takes((#[trigger] files[i]).contents@)
}

impl ZipStorage {
    /// A new archive that puts its members under the directory
    /// `write_dir` and holds the extra files `files`, each under its
    /// target. The second part of the result says for each file whether
    /// it went in. Files that can all be written as members all go in;
    /// where all went in, the archive holds exactly them, in their order,
    /// and is ready for more. A file that cannot be written is passed
    /// over, and nothing is known of the members from there on.
    pub fn init(files: &Vec<ExtraFile>, write_dir: Option<PackPath>) -> (r: (
        ZipStorage,
        Vec<bool>,
    ))
        ensures
            r.1@.len() == files@.len(),
            r.0.seed() == Seq::<u8>::empty(),
            r.0.write_dir == write_dir,
            all_take(files@, files@.len() as int) ==> all_set(r.1@, files@.len() as int),
            all_set(r.1@, files@.len() as int) ==> r.0.members() == seeded(
                files@,
                r.0.dir(),
                files@.len() as int,
            ),
            all_take(files@, files@.len() as int) ==> r.0.ready(),
    {
        let empty: Vec<u8> = Vec::new();
        let mut storage = <ZipStorage as InMemoryStorage>::new(empty.as_slice());
        storage.write_dir = write_dir;
        let mut done: Vec<bool> = Vec::new();
        let mut i: usize = 0;
        while i < files.len()
            invariant
                i <= files@.len(),
                done@.len() == i,
                storage.seed() == Seq::<u8>::empty(),
                storage.write_dir == write_dir,
                all_take(files@, i as int) ==> all_set(done@, i as int) && storage.ready(),
                all_set(done@, i as int) ==> storage.members() == seeded(
                    files@,
                    storage.dir(),
                    i as int,
                ),
            decreases files@.len() - i,
        {
            let ghost before = done@;
            let to = target_of(&files[i].entry);
            let went_in: bool = storage.write(&to, files[i].contents.as_slice()).is_ok();
            done.push(went_in);
            proof {
                if all_set(done@, i + 1) {
                    assert forall|j: int| 0 <= j < i implies before[j] by {
                        assert(done@[j]);
                    }
                    assert(done@[i as int]);
                }
                if all_take(files@, i + 1) {
                    assert(takes(files@[i as int].contents@));
                    assert forall|j: int| 0 <= j < i + 1 implies done@[j] by {
                        if j < i {
                            assert(before[j]);
                        }
                    }
                }
            }
            i += 1;
        }
        (storage, done)
    }
}

/// A sink that mirrors the world in a directory.
#[derive(Debug)]
pub struct DirStorage {
    pub root: PackPath,
}

impl FilesystemStorage for DirStorage {
    fn new(path: &PackPath) -> (r: DirStorage)
        ensures
            r.root@ == path@,
    {
        DirStorage { root: path.duplicate() }
    }
}

impl DirStorage {
    /// The directory of this sink.
    pub fn path(&self) -> (r: &PackPath)
        ensures
            r@ == self.root@,
    {
        &self.root
    }

    /// The place at which the file `file` of the output is written.
    pub fn target(&self, file: &PackPath) -> (r: PackPath)
        ensures
            r@ == join_spec(self.root@, file@),
    {
        self.root.join(file)
    }
}

/// One file to copy: from where, and to which place in the output.
#[derive(Debug)]
pub struct Copy {
    pub from: PackPath,
    pub to: PackPath,
}

/// The copies that bring the files `found` under the directory `from` to
/// the place `to`, each at the same place below it.
pub open spec fn copies(
    from: Seq<ComponentV>,
    to: Seq<ComponentV>,
    found: Seq<PackPath>,
    count: int,
) -> Seq<(Seq<ComponentV>, Seq<ComponentV>)>
    decreases count,
{
    if count <= 0 {
        Seq::empty()
    } else {
        let file = found[count - 1]@;
        copies(from, to, found, count - 1).push(
            (file, join_spec(to, file.subrange(from.len() as int, file.len() as int))),
        )
    }
}

/// The copies of `list`, each by the views of its two paths.
pub open spec fn copy_views(list: Seq<Copy>) -> Seq<(Seq<ComponentV>, Seq<ComponentV>)> {
    Seq::new(list.len(), |i: int| (list[i].from@, list[i].to@))
}

/// Every one of the first `count` files lies under `from`.
pub open spec fn all_under(from: Seq<ComponentV>, found: Seq<PackPath>, count: int) -> bool {
    forall|i: int| 0 <= i < count ==> is_prefix(from, (#[trigger] found[i])@)
}

/// The copies that copy the directory `from` to the place `to`, for the
/// files `found` under it. Fails with the index of the first file that
/// does not lie under `from`.
pub fn copy_dir_recursive(from: &PackPath, to: &PackPath, found: &Vec<PackPath>) -> (r: Result<
    Vec<Copy>,
    StorageError,
>)
    ensures
        match r {
            Ok(list) => all_under(from@, found@, found@.len() as int) && copy_views(list@)
                == copies(from@, to@, found@, found@.len() as int),
            Err(StorageError::Outside(i)) => i < found@.len() && !is_prefix(
                from@,
                found@[i as int]@,
            ) && all_under(from@, found@, i as int),
            Err(_) => false,
        },
{
    let mut list: Vec<Copy> = Vec::new();
    let mut i: usize = 0;
    assert(copy_views(list@) =~= copies(from@, to@, found@, 0));
    while i < found.len()
        invariant
            i <= found@.len(),
            all_under(from@, found@, i as int),
            copy_views(list@) == copies(from@, to@, found@, i as int),
        decreases found@.len() - i,
    {
        match found[i].strip_prefix(from) {
            Some(rest) => {
                let ghost before = copy_views(list@);
                let copy = Copy { from: found[i].duplicate(), to: to.join(&rest) };
                list.push(copy);
                assert(copy_views(list@) =~= before.push((copy.from@, copy.to@)));
            },
            None => {
                return Err(StorageError::Outside(i));
            },
        }
        i += 1;
    }
    Ok(list)
}

/// The members of an archive of the first `count` files of a directory,
/// each named by its place below the directory.
pub open spec fn dir_members(dir: Seq<ComponentV>, files: Seq<FileData>, count: int) -> Seq<
    MemberV,
>
    decreases count,
{
    if count <= 0 {
        Seq::empty()
    } else {
        let file = files[count - 1];
        dir_members(dir, files, count - 1).push(
            MemberV {
                name: member_name(file.path@.subrange(dir.len() as int, file.path@.len() as int)),
                contents: file.contents@,
            },
        )
    }
}

/// Every one of the first `count` files can be written as a member.
pub open spec fn files_take(files: Seq<FileData>, count: int) -> bool {
    forall|i: int| 0 <= i < count ==> takes((#[trigger] files[i]).contents@)
}

/// Every one of the first `count` files lies under `dir`.
pub open spec fn files_under(dir: Seq<ComponentV>, files: Seq<FileData>, count: int) -> bool {
    forall|i: int| 0 <= i < count ==> is_prefix(dir, (#[trigger] files[i]).path@)
}

/// The archive of the directory `dir`, whose files are `files`: each file
/// is the member named by its place below the directory. It is made
/// whenever the files lie under the directory and can all be written as
/// members.
pub fn create_zip_from_dir(dir: &PackPath, files: &Vec<FileData>) -> (r: Result<
    Vec<u8>,
    StorageError,
>)
    ensures
        match r {
            Ok(bytes) => files_under(dir@, files@, files@.len() as int) && bytes@ == archive_bytes(
                Seq::empty(),
                dir_members(dir@, files@, files@.len() as int),
            ),
            Err(StorageError::Outside(i)) => i < files@.len() && !is_prefix(
                dir@,
                files@[i as int].path@,
            ) && files_under(dir@, files@, i as int),
            Err(_) => files_under(dir@, files@, files@.len() as int) && !files_take(
                files@,
                files@.len() as int,
            ),
        },
{
    let mut i: usize = 0;
    while i < files.len()
        invariant
            i <= files@.len(),
            files_under(dir@, files@, i as int),
        decreases files@.len() - i,
    {
        if !files[i].path.starts_with(dir) {
            return Err(StorageError::Outside(i));
        }
        i += 1;
    }
    let empty: Vec<u8> = Vec::new();
    let mut storage = <ZipStorage as InMemoryStorage>::new(empty.as_slice());
    let mut k: usize = 0;
    while k < files.len()
        invariant
            k <= files@.len(),
            files_under(dir@, files@, files@.len() as int),
            storage.seed() == Seq::<u8>::empty(),
            storage.dir() is None,
            storage.members() == dir_members(dir@, files@, k as int),
            files_take(files@, k as int) ==> storage.ready(),
        decreases files@.len() - k,
    {
        assert(is_prefix(dir@, files@[k as int].path@));
        let rest = files[k].path.tail(dir.len());
        match storage.write(&rest, files[k].contents.as_slice()) {
            Ok(_) => {},
            Err(e) => {
                assert(!takes(files@[k as int].contents@) || !files_take(files@, k as int));
                return Err(e);
            },
        }
        k += 1;
    }
    storage.finish()
}

} // verus!
