//! Region containers: a grid of 32 by 32 chunk slots behind two header
//! tables of 4096 bytes each, and the pruning of their empty chunks.
//!
//! Reading and writing the container, and the compression of its chunks,
//! are the work of `fastanvil`. What is decided here is which slots may be
//! read at all, which chunks stay, and where they go.

use vstd::prelude::*;
use crate::chunk::{check_chunk, chunk_is_empty, not_fully_generated, Chunk, ChunkField};
use crate::config::Config;
use crate::nbt::{decode, document, encode, forms, string_views, CodecError, TagV};

verus! {

/// `fastanvil::Region`, a container over a stream of bytes.
#[verifier::external_type_specification]
#[verifier::external_body]
#[verifier::reject_recursive_types(S)]
pub struct ExAnvilRegion<S>(fastanvil::Region<S>);

/// `std::io::Cursor`, the stream that a container in memory works on.
#[verifier::external_type_specification]
#[verifier::external_body]
#[verifier::reject_recursive_types(T)]
pub struct ExCursor<T>(std::io::Cursor<T>);

/// `fastanvil::Error`, what the container reports.
#[verifier::external_type_specification]
#[verifier::external_body]
pub struct ExAnvilError(fastanvil::Error);

/// The number of chunk slots of a region.
pub const SLOTS: usize = 1024;

/// The size of the two header tables; a container of this size holds no
/// chunk.
pub const HEADER_SIZE: usize = 8192;

/// The bytes of a chunk, with its place in the grid.
#[derive(Debug)]
pub struct Placed {
    pub x: usize,
    pub z: usize,
    pub data: Vec<u8>,
}

/// What a [`Placed`] stands for.
pub struct PlacedV {
    pub x: int,
    pub z: int,
    pub data: Seq<u8>,
}

impl View for Placed {
    type V = PlacedV;

    open spec fn view(&self) -> PlacedV {
        PlacedV { x: self.x as int, z: self.z as int, data: self.data@ }
    }
}

/// A chunk, with its place in the grid.
#[derive(Debug)]
pub struct Located {
    pub x: usize,
    pub z: usize,
    pub chunk: Chunk,
}

/// What a [`Located`] stands for.
pub struct LocatedV {
    pub x: int,
    pub z: int,
    pub root: Map<Seq<char>, TagV>,
}

impl View for Located {
    type V = LocatedV;

    open spec fn view(&self) -> LocatedV {
        LocatedV { x: self.x as int, z: self.z as int, root: self.chunk@ }
    }
}

/// The placed chunks of `items`, each by its view.
pub open spec fn placed_views(items: Seq<Placed>) -> Seq<PlacedV> {
    Seq::new(items.len(), |i: int| items[i]@)
}

/// The located chunks of `items`, each by its view.
pub open spec fn located_views(items: Seq<Located>) -> Seq<LocatedV> {
    Seq::new(items.len(), |i: int| items[i]@)
}

/// Why a region could not be pruned.
#[derive(Debug)]
pub enum RegionError {
    /// The bytes are too short to hold the table of chunk offsets.
    Truncated,
    /// The chunk in this slot says of itself that it is zero bytes long.
    Broken(usize),
    /// A chunk could not be unpacked.
    Read(fastanvil::Error),
    /// The chunk at this place holds no tag tree.
    Document(usize, usize, CodecError),
    /// The chunk at this place has a part of the wrong shape.
    Shape(usize, usize, ChunkField),
    /// The chunk at this place could not be written as a tag tree.
    Unwritable(usize, usize, CodecError),
    /// A chunk could not be put into the new container.
    Write(fastanvil::Error),
}

/// The stages at which a region can fail.
#[derive(Debug, Clone, Copy, PartialEq, Eq, Structural)]
pub enum Stage {
    /// The container is opened.
    Read,
    /// The chunks are read and looked into, and the new container is
    /// built.
    Process,
}

impl Stage {
    /// What to tell of a region that failed at this stage.
    pub fn describe(&self) -> (r: &'static str)
        ensures
            r@ == match *self {
                Stage::Read => "could not read region"@,
                Stage::Process => "could not process region"@,
            },
    {
        match self {
            Stage::Read => "could not read region",
            Stage::Process => "could not process region",
        }
    }
}

impl RegionError {
    /// The stage at which the region failed: reading, where the container
    /// does not hold its table of offsets and so cannot be opened;
    /// processing for every failure on the way through its chunks.
    pub fn stage(&self) -> (r: Stage)
        ensures
            r == Stage::Read <==> self is Truncated,
    {
        match self {
            RegionError::Truncated => Stage::Read,
            _ => Stage::Process,
        }
    }
}

/// What is wrong with the bytes of a chunk.
pub enum Fault {
    /// They hold no tag tree.
    Document,
    /// The tree has a part of the wrong shape.
    Shape(ChunkField),
}

/// The chunk that unpacked bytes hold.
pub open spec fn chunk_root(data: Seq<u8>) -> Result<Map<Seq<char>, TagV>, Fault> {
    match document(data) {
        Some(doc) => match check_chunk(doc) {
            Ok(root) => Ok(root),
            Err(field) => Err(Fault::Shape(field)),
        },
        None => Err(Fault::Document),
    }
}

/// Each of the first `count` chunks of `raw` holds a chunk.
pub open spec fn all_hold_chunks(raw: Seq<PlacedV>, count: int) -> bool {
    forall|i: int| 0 <= i < count ==> chunk_root((#[trigger] raw[i]).data) is Ok
}

/// The chunk with index `i` is the first of `raw` that holds no chunk, and
/// `fault` is what is wrong with it.
pub open spec fn first_fault(raw: Seq<PlacedV>, i: int, fault: Fault) -> bool {
    0 <= i < raw.len() && all_hold_chunks(raw, i) && chunk_root(raw[i].data) == Err::<
        Map<Seq<char>, TagV>,
        Fault,
    >(fault)
}

/// The chunks that `raw` holds, each at the place of its bytes.
pub open spec fn documents(raw: Seq<PlacedV>) -> Seq<LocatedV> {
    Seq::new(
        raw.len(),
        |i: int| LocatedV { x: raw[i].x, z: raw[i].z, root: chunk_root(raw[i].data)->Ok_0 },
    )
}

/// The sector at which the chunk of a slot starts, as the offset table
/// says: three bytes, most significant first.
pub open spec fn slot_offset(bytes: Seq<u8>, slot: int) -> int {
    bytes[4 * slot] * 65536 + bytes[4 * slot + 1] * 256 + bytes[4 * slot + 2]
}

/// The number of sectors of the chunk of a slot, as the offset table says.
pub open spec fn slot_sectors(bytes: Seq<u8>, slot: int) -> int {
    bytes[4 * slot + 3] as int
}

/// A slot is populated when its entry in the offset table is not zero.
pub open spec fn populated(bytes: Seq<u8>, slot: int) -> bool {
    slot_offset(bytes, slot) != 0 || slot_sectors(bytes, slot) != 0
}

/// The byte at which the chunk of a slot starts.
pub open spec fn chunk_start(bytes: Seq<u8>, slot: int) -> int {
    slot_offset(bytes, slot) * 4096
}

/// The length that the chunk of a slot announces in its first four bytes,
/// most significant first. It counts the byte of the compression scheme.
pub open spec fn announced_length(bytes: Seq<u8>, slot: int) -> int {
    let at = chunk_start(bytes, slot);
    bytes[at] * 16777216 + bytes[at + 1] * 65536 + bytes[at + 2] * 256 + bytes[at + 3]
}

/// A slot is broken when it is populated, the five bytes that head its
/// chunk lie within the container, and the announced length is zero: such
/// a chunk has no room for the byte of its compression scheme.
pub open spec fn broken(bytes: Seq<u8>, slot: int) -> bool {
    populated(bytes, slot) && chunk_start(bytes, slot) + 5 <= bytes.len() && announced_length(
        bytes,
        slot,
    ) == 0
}

/// No slot before `count` is broken.
pub open spec fn none_broken(bytes: Seq<u8>, count: int) -> bool {
    forall|slot: int| 0 <= slot < count ==> !(#[trigger] broken(bytes, slot))
}

/// A container can be read when it holds the whole offset table and no
/// slot is broken.
pub open spec fn readable(bytes: Seq<u8>) -> bool {
    bytes.len() >= 4096 && none_broken(bytes, SLOTS as int)
}

/// The bytes of the stream that a region works on.
pub uninterp spec fn region_bytes(region: fastanvil::Region<std::io::Cursor<Vec<u8>>>) -> Seq<u8>;

/// The unpacked bytes of the chunk in a slot of a container; none where
/// the slot is empty or the chunk cannot be unpacked.
pub uninterp spec fn chunk_payload(bytes: Seq<u8>, slot: int) -> Option<Seq<u8>>;

/// The chunks that were written to a region since it was created, in the
/// order of the writes.
pub uninterp spec fn written(region: fastanvil::Region<std::io::Cursor<Vec<u8>>>) -> Seq<PlacedV>;

/// Whether a region is new: it was created empty, not opened from bytes,
/// and every write to it has succeeded.
pub uninterp spec fn is_new(region: fastanvil::Region<std::io::Cursor<Vec<u8>>>) -> bool;

/// Whether a new region takes the chunk `data` at the place `x` by `z`:
/// the place lies in the grid, and the chunk, once compressed, takes no
/// more sectors than the sector table can count.
pub uninterp spec fn placeable(x: int, z: int, data: Seq<u8>) -> bool;

/// The bytes of a new container to which the chunks were written in order.
pub uninterp spec fn container(chunks: Seq<PlacedV>) -> Seq<u8>;

/// A new region takes each of the first `count` chunks.
pub open spec fn all_placeable(chunks: Seq<PlacedV>, count: int) -> bool {
    forall|i: int|
        0 <= i < count ==> placeable(
            (#[trigger] chunks[i]).x,
            chunks[i].z,
            chunks[i].data,
        )
}

/// `Region::from_stream` on a cursor over the bytes. It reads the table
/// of offsets, which is the first 4096 bytes, and succeeds exactly when
/// the bytes hold all of it. The region that comes back works on those
/// bytes.
#[verifier::external_body]
pub(crate) fn region_open(bytes: Vec<u8>) -> (r: Result<
    fastanvil::Region<std::io::Cursor<Vec<u8>>>,
    fastanvil::Error,
>)
    ensures
        r is Ok <==> bytes@.len() >= 4096,
        r matches Ok(region) ==> region_bytes(region) == bytes@,
{
    fastanvil::Region::from_stream(std::io::Cursor::new(bytes))
}

/// `Region::read_chunk`. It leaves the bytes of the stream as they are. It
/// returns no chunk exactly for a slot whose entry in the offset table is
/// zero; for a populated slot it returns the unpacked chunk, which the
/// contract names, or an error. A broken slot is left out: on it the
/// subtraction of the scheme's byte from the announced length overflows.
#[verifier::external_body]
pub(crate) fn region_read(
    region: &mut fastanvil::Region<std::io::Cursor<Vec<u8>>>,
    x: usize,
    z: usize,
) -> (r: Result<Option<Vec<u8>>, fastanvil::Error>)
    requires
        x < 32,
        z < 32,
        region_bytes(*old(region)).len() >= 4096,
        !broken(region_bytes(*old(region)), x + 32 * z),
    ensures
        region_bytes(*final(region)) == region_bytes(*old(region)),
        match r {
            Ok(Some(data)) => populated(region_bytes(*old(region)), x + 32 * z) && chunk_payload(
                region_bytes(*old(region)),
                x + 32 * z,
            ) == Some(data@),
            Ok(None) => !populated(region_bytes(*old(region)), x + 32 * z),
            Err(_) => populated(region_bytes(*old(region)), x + 32 * z) && chunk_payload(
                region_bytes(*old(region)),
                x + 32 * z,
            ) is None,
        },
{
    region.read_chunk(x, z)
}

/// `Region::create` on a cursor over an empty buffer. It writes the two
/// header tables into the buffer and succeeds: a new region, to which
/// nothing was written yet.
#[verifier::external_body]
pub(crate) fn region_create() -> (r: Result<
    fastanvil::Region<std::io::Cursor<Vec<u8>>>,
    fastanvil::Error,
>)
    ensures
        r is Ok,
        r matches Ok(region) ==> is_new(region) && written(region) == Seq::<PlacedV>::empty(),
{
    fastanvil::Region::create(std::io::Cursor::new(Vec::new()))
}

/// `Region::write_chunk` on a new region. Whether it succeeds depends on
/// the place and the chunk alone, which the contract names; a place
/// outside the grid is refused. Where it succeeds, the region is still
/// new and the chunk is one more that was written. A region that was
/// opened from bytes is left out: its table of offsets may point
/// anywhere.
#[verifier::external_body]
pub(crate) fn region_write(
    region: &mut fastanvil::Region<std::io::Cursor<Vec<u8>>>,
    x: usize,
    z: usize,
    data: &[u8],
) -> (r: Result<(), fastanvil::Error>)
    requires
        is_new(*old(region)),
    ensures
        r is Ok <==> placeable(x as int, z as int, data@),
        r is Ok ==> x < 32 && z < 32,
        r is Ok ==> is_new(*final(region)) && written(*final(region)) == written(
            *old(region),
        ).push(PlacedV { x: x as int, z: z as int, data: data@ }),
{
    region.write_chunk(x, z, data)
}

/// `Region::into_inner` on a new region, and the buffer of the cursor
/// that it returns. It succeeds. The contract names the bytes, and says
/// of them what the writes show: a new region is its two header tables,
/// 8192 bytes, and every chunk written adds whole sectors of 4096 bytes
/// behind them. A region that was opened from bytes is left out: the
/// length that its last chunk announces may overflow.
#[verifier::external_body]
pub(crate) fn region_into_bytes(region: fastanvil::Region<std::io::Cursor<Vec<u8>>>) -> (r: Result<
    Vec<u8>,
    std::io::Error,
>)
    requires
        is_new(region),
    ensures
        r is Ok,
        r matches Ok(bytes) ==> bytes@ == container(written(region)) && bytes@.len() >= 8192 && (
        bytes@.len() > 8192 <==> written(region).len() > 0),
{
    Ok(region.into_inner()?.into_inner())
}

/// The chunks of the populated slots before `count`, unpacked, in the
/// order of the slots: a slot with index `i` is the place `i % 32` by
/// `i / 32`.
pub open spec fn payloads(bytes: Seq<u8>, count: int) -> Seq<PlacedV>
    decreases count,
{
    if count <= 0 {
        Seq::empty()
    } else {
        let rest = payloads(bytes, count - 1);
        let slot = count - 1;
        match chunk_payload(bytes, slot) {
            Some(data) if populated(bytes, slot) => rest.push(
                PlacedV { x: slot % 32, z: slot / 32, data },
            ),
            _ => rest,
        }
    }
}

/// Every populated slot before `count` holds a chunk that can be unpacked.
pub open spec fn all_unpack(bytes: Seq<u8>, count: int) -> bool {
    forall|slot: int|
        0 <= slot < count && populated(bytes, slot) ==> (#[trigger] chunk_payload(
            bytes,
            slot,
        )) is Some
}

/// The chunks of `chunks` that are not empty, in their order.
pub open spec fn pruned(chunks: Seq<LocatedV>, ignored: Seq<Seq<char>>) -> Seq<LocatedV>
    decreases chunks.len(),
{
    if chunks.len() == 0 {
        Seq::empty()
    } else {
        let rest = pruned(chunks.drop_last(), ignored);
        if chunk_is_empty(chunks.last().root, ignored) {
            rest
        } else {
            rest.push(chunks.last())
        }
    }
}

/// Two lists of chunks hold as many chunks, at the same places.
pub open spec fn same_places(docs: Seq<LocatedV>, raw: Seq<PlacedV>) -> bool {
    docs.len() == raw.len() && forall|i: int|
        0 <= i < docs.len() ==> (#[trigger] docs[i]).x == raw[i].x && docs[i].z == raw[i].z
}

/// The chunks of the container `bytes` that are kept: those that are not
/// empty, in the order of their slots.
pub open spec fn survivors(bytes: Seq<u8>, ignored: Seq<Seq<char>>) -> Seq<LocatedV> {
    pruned(documents(payloads(bytes, SLOTS as int)), ignored)
}

/// The container `bytes` can be pruned: every populated slot holds a
/// chunk that can be unpacked and that holds a chunk document.
pub open spec fn prunable(bytes: Seq<u8>) -> bool {
    all_unpack(bytes, SLOTS as int) && all_hold_chunks(
        payloads(bytes, SLOTS as int),
        payloads(bytes, SLOTS as int).len() as int,
    )
}

/// `packed` holds the chunks `docs` as they were written: as many, each
/// at the place of its chunk, and each one of the forms of the document
/// of its chunk.
pub open spec fn written_forms(docs: Seq<LocatedV>, packed: Seq<PlacedV>) -> bool {
    same_places(docs, packed) && forall|i: int|
        0 <= i < docs.len() ==> forms(TagV::Compound(docs[i].root)).contains(
            (#[trigger] packed[i]).data,
        )
}

/// `out` is a new container to which `packed` was written, the chunks of
/// `bytes` that are kept, as they were written.
pub open spec fn rebuilt(
    bytes: Seq<u8>,
    ignored: Seq<Seq<char>>,
    packed: Seq<PlacedV>,
    out: Seq<u8>,
) -> bool {
    written_forms(survivors(bytes, ignored), packed) && all_placeable(
        packed,
        packed.len() as int,
    ) && out == container(packed)
}

/// `out` is the container `bytes` without its empty chunks: each chunk
/// that is kept stands at its place, written in one of the forms of its
/// document, in a new container that holds no other. It is never smaller
/// than the two header tables, and larger exactly when a chunk is kept.
pub open spec fn optimized(bytes: Seq<u8>, ignored: Seq<Seq<char>>, out: Seq<u8>) -> bool {
    &&& prunable(bytes)
    &&& exists|packed: Seq<PlacedV>| #[trigger] rebuilt(bytes, ignored, packed, out)
    &&& out.len() >= 8192
    &&& out.len() > 8192 <==> survivors(bytes, ignored).len() > 0
}

/// What an error says of the container `bytes` that could not be pruned.
/// A container that can be pruned and has no chunk to keep is never
/// refused.
pub open spec fn refused(bytes: Seq<u8>, ignored: Seq<Seq<char>>, e: RegionError) -> bool {
    match e {
        RegionError::Truncated => bytes.len() < 4096,
        RegionError::Broken(slot) => bytes.len() >= 4096 && slot < SLOTS && broken(
            bytes,
            slot as int,
        ) && none_broken(bytes, slot as int),
        RegionError::Read(_) => readable(bytes) && !all_unpack(bytes, SLOTS as int),
        RegionError::Document(x, z, _) => readable(bytes) && all_unpack(bytes, SLOTS as int)
            && exists|i: int|
            #![trigger payloads(bytes, SLOTS as int)[i]]
            first_fault(payloads(bytes, SLOTS as int), i, Fault::Document) && payloads(
                bytes,
                SLOTS as int,
            )[i].x == x && payloads(bytes, SLOTS as int)[i].z == z,
        RegionError::Shape(x, z, field) => readable(bytes) && all_unpack(bytes, SLOTS as int)
            && exists|i: int|
            #![trigger payloads(bytes, SLOTS as int)[i]]
            first_fault(payloads(bytes, SLOTS as int), i, Fault::Shape(field)) && payloads(
                bytes,
                SLOTS as int,
            )[i].x == x && payloads(bytes, SLOTS as int)[i].z == z,
        RegionError::Unwritable(_, _, _) => readable(bytes) && prunable(bytes) && survivors(
            bytes,
            ignored,
        ).len() > 0,
        RegionError::Write(_) => readable(bytes) && prunable(bytes) && survivors(
            bytes,
            ignored,
        ).len() > 0,
    }
}

/// Where one of some chunks has a fault, not all of them hold a chunk.
pub proof fn lemma_fault_is_no_chunk(raw: Seq<PlacedV>)
    ensures
        forall|i: int, fault: Fault|
            first_fault(raw, i, fault) ==> !all_hold_chunks(raw, raw.len() as int),
{
    assert forall|i: int, fault: Fault| first_fault(raw, i, fault) implies !all_hold_chunks(
        raw,
        raw.len() as int,
    ) by {
        assert(chunk_root(raw[i].data) is Err);
    }
}

/// Pruning keeps no empty chunk.
pub proof fn lemma_pruned_has_no_empty_chunk(
    chunks: Seq<LocatedV>,
    ignored: Seq<Seq<char>>,
    k: int,
)
    requires
        0 <= k < pruned(chunks, ignored).len(),
    ensures
        !chunk_is_empty(pruned(chunks, ignored)[k].root, ignored),
    decreases chunks.len(),
{
    let rest = pruned(chunks.drop_last(), ignored);
    if k < rest.len() {
        lemma_pruned_has_no_empty_chunk(chunks.drop_last(), ignored, k);
    }
}

/// Pruning keeps no chunk that is not fully generated, whatever else the
/// chunk holds.
pub proof fn lemma_pruned_drops_what_is_not_fully_generated(
    chunks: Seq<LocatedV>,
    ignored: Seq<Seq<char>>,
    k: int,
)
    requires
        0 <= k < pruned(chunks, ignored).len(),
    ensures
        !not_fully_generated(pruned(chunks, ignored)[k].root),
{
    lemma_pruned_has_no_empty_chunk(chunks, ignored, k);
}

/// Where no chunk is empty, pruning keeps them all.
pub proof fn lemma_pruned_keeps_all(chunks: Seq<LocatedV>, ignored: Seq<Seq<char>>)
    requires
        forall|k: int|
            0 <= k < chunks.len() ==> !chunk_is_empty(#[trigger] chunks[k].root, ignored),
    ensures
        pruned(chunks, ignored) == chunks,
    decreases chunks.len(),
{
    if chunks.len() > 0 {
        let front = chunks.drop_last();
        assert forall|k: int| 0 <= k < front.len() implies !chunk_is_empty(
            #[trigger] front[k].root,
            ignored,
        ) by {
            assert(front[k] == chunks[k]);
        }
        lemma_pruned_keeps_all(front, ignored);
        assert(!chunk_is_empty(chunks[chunks.len() - 1].root, ignored));
        assert(front.push(chunks.last()) =~= chunks);
    } else {
        assert(chunks =~= Seq::<LocatedV>::empty());
    }
}

/// Pruning what was pruned changes nothing.
pub proof fn lemma_pruned_is_idempotent(chunks: Seq<LocatedV>, ignored: Seq<Seq<char>>)
    ensures
        pruned(pruned(chunks, ignored), ignored) == pruned(chunks, ignored),
{
    let once = pruned(chunks, ignored);
    assert forall|k: int| 0 <= k < once.len() implies !chunk_is_empty(
        #[trigger] once[k].root,
        ignored,
    ) by {
        lemma_pruned_has_no_empty_chunk(chunks, ignored, k);
    }
    lemma_pruned_keeps_all(once, ignored);
}

/// Pruning a container none of whose chunks is empty keeps every chunk,
/// each at its place.
pub proof fn lemma_pruned_container_keeps_all(bytes: Seq<u8>, ignored: Seq<Seq<char>>)
    requires
        forall|k: int|
            0 <= k < documents(payloads(bytes, SLOTS as int)).len() ==> !chunk_is_empty(
                #[trigger] documents(payloads(bytes, SLOTS as int))[k].root,
                ignored,
            ),
    ensures
        survivors(bytes, ignored) == documents(payloads(bytes, SLOTS as int)),
{
    lemma_pruned_keeps_all(documents(payloads(bytes, SLOTS as int)), ignored);
}

/// Whether the slot `slot` of the container `bytes` is broken.
pub fn is_broken(bytes: &Vec<u8>, slot: usize) -> (r: bool)
    requires
        bytes@.len() >= 4096,
        slot < SLOTS,
    ensures
        r == broken(bytes@, slot as int),
{
    let at: usize = 4 * slot;
    let offset: u64 = bytes[at] as u64 * 65536 + bytes[at + 1] as u64 * 256 + bytes[at + 2] as u64;
    let sectors: u8 = bytes[at + 3];
    if offset == 0 && sectors == 0 {
        return false;
    }
    let start: u64 = offset * 4096;
    let len: u64 = bytes.len() as u64;
    if start + 5 > len {
        return false;
    }
    let s: usize = start as usize;
    bytes[s] == 0 && bytes[s + 1] == 0 && bytes[s + 2] == 0 && bytes[s + 3] == 0
}

/// Checks that the container `bytes` can be read: `Truncated` where the
/// offset table is not whole, `Broken` with the first broken slot.
pub fn check_readable(bytes: &Vec<u8>) -> (r: Result<(), RegionError>)
    ensures
        match r {
            Ok(_) => readable(bytes@),
            Err(RegionError::Truncated) => bytes@.len() < 4096,
            Err(RegionError::Broken(slot)) => bytes@.len() >= 4096 && slot < SLOTS && broken(
                bytes@,
                slot as int,
            ) && none_broken(bytes@, slot as int),
            Err(_) => false,
        },
{
    if bytes.len() < 4096 {
        return Err(RegionError::Truncated);
    }
    let mut slot: usize = 0;
    while slot < SLOTS
        invariant
            slot <= SLOTS,
            bytes@.len() >= 4096,
            none_broken(bytes@, slot as int),
        decreases SLOTS - slot,
    {
        if is_broken(bytes, slot) {
            return Err(RegionError::Broken(slot));
        }
        slot += 1;
    }
    Ok(())
}

/// The chunks of a region, unpacked, in the order of their slots. Fails
/// exactly when a populated slot holds a chunk that cannot be unpacked.
pub fn read_chunks(region: &mut fastanvil::Region<std::io::Cursor<Vec<u8>>>) -> (r: Result<
    Vec<Placed>,
    RegionError,
>)
    requires
        readable(region_bytes(*old(region))),
    ensures
        region_bytes(*final(region)) == region_bytes(*old(region)),
        match r {
            Ok(chunks) => all_unpack(region_bytes(*old(region)), SLOTS as int) && placed_views(
                chunks@,
            ) == payloads(region_bytes(*old(region)), SLOTS as int),
            Err(e) => e is Read && !all_unpack(region_bytes(*old(region)), SLOTS as int),
        },
{
    let ghost bytes = region_bytes(*region);
    let mut chunks: Vec<Placed> = Vec::new();
    let mut slot: usize = 0;
    assert(placed_views(chunks@) =~= payloads(bytes, 0));
    while slot < SLOTS
        invariant
            slot <= SLOTS,
            region_bytes(*region) == bytes,
            bytes == region_bytes(*old(region)),
            readable(bytes),
            all_unpack(bytes, slot as int),
            placed_views(chunks@) == payloads(bytes, slot as int),
        decreases SLOTS - slot,
    {
        let x: usize = slot % 32;
        let z: usize = slot / 32;
        assert(x + 32 * z == slot);
        assert(!broken(bytes, slot as int));
        match region_read(region, x, z) {
            Ok(Some(data)) => {
                let ghost before = placed_views(chunks@);
                let placed = Placed { x, z, data };
                chunks.push(placed);
                assert(placed_views(chunks@) =~= before.push(placed@));
            },
            Ok(None) => {},
            Err(e) => {
                assert(chunk_payload(bytes, slot as int) is None);
                return Err(RegionError::Read(e));
            },
        }
        slot += 1;
    }
    Ok(chunks)
}

/// The chunks that the bytes `raw` hold, each at the place of its bytes.
/// Fails with the place of the first that holds no chunk: `Document`
/// where the bytes hold no tag tree, `Shape` where the tree has a part of
/// the wrong shape.
pub fn decode_chunks(raw: &Vec<Placed>) -> (r: Result<Vec<Located>, RegionError>)
    ensures
        match r {
            Ok(docs) => all_hold_chunks(placed_views(raw@), raw@.len() as int) && located_views(
                docs@,
            ) == documents(placed_views(raw@)),
            Err(RegionError::Document(x, z, _)) => exists|i: int|
                #![trigger placed_views(raw@)[i]]
                first_fault(placed_views(raw@), i, Fault::Document) && placed_views(raw@)[i].x
                    == x && placed_views(raw@)[i].z == z,
            Err(RegionError::Shape(x, z, field)) => exists|i: int|
                #![trigger placed_views(raw@)[i]]
                first_fault(placed_views(raw@), i, Fault::Shape(field)) && placed_views(raw@)[i].x
                    == x && placed_views(raw@)[i].z == z,
            Err(_) => false,
        },
{
    let ghost all = placed_views(raw@);
    let mut docs: Vec<Located> = Vec::new();
    let mut i: usize = 0;
    while i < raw.len()
        invariant
            i <= raw@.len(),
            all == placed_views(raw@),
            docs@.len() == i,
            all_hold_chunks(all, i as int),
            forall|j: int| 0 <= j < i ==> (#[trigger] docs@[j])@ == documents(all)[j],
        decreases raw@.len() - i,
    {
        let x: usize = raw[i].x;
        let z: usize = raw[i].z;
        assert(all[i as int].data == raw@[i as int].data@);
        let tag = match decode(raw[i].data.as_slice()) {
            Ok(tag) => tag,
            Err(e) => {
                assert(first_fault(all, i as int, Fault::Document));
                assert(all[i as int].x == x && all[i as int].z == z);
                return Err(RegionError::Document(x, z, e));
            },
        };
        let chunk = match Chunk::new(tag) {
            Ok(chunk) => chunk,
            Err(field) => {
                assert(first_fault(all, i as int, Fault::Shape(field)));
                assert(all[i as int].x == x && all[i as int].z == z);
                return Err(RegionError::Shape(x, z, field));
            },
        };
        docs.push(Located { x, z, chunk });
        i += 1;
    }
    assert(located_views(docs@) =~= documents(all));
    Ok(docs)
}

/// The chunks of `docs` that are not empty, in their order, with
/// `ignored_blocks` as the blocks that do not count.
pub fn prune(docs: Vec<Located>, ignored_blocks: &Vec<String>) -> (r: Vec<Located>)
    ensures
        located_views(r@) == pruned(located_views(docs@), string_views(ignored_blocks@)),
{
    let mut docs = docs;
    let ghost all = located_views(docs@);
    let ghost ignored = string_views(ignored_blocks@);
    let n: usize = docs.len();
    let mut kept: Vec<Located> = Vec::new();
    let mut i: usize = 0;
    assert(all.subrange(0, 0) =~= Seq::<LocatedV>::empty());
    assert(located_views(kept@) =~= Seq::<LocatedV>::empty());
    while i < n
        invariant
            i <= n,
            docs@.len() == n,
            all.len() == n,
            ignored == string_views(ignored_blocks@),
            forall|j: int| i <= j < n ==> #[trigger] docs@[j]@ == all[j],
            located_views(kept@) == pruned(all.subrange(0, i as int), ignored),
        decreases n - i,
    {
        let ghost before = located_views(kept@);
        assert(all.subrange(0, i + 1).drop_last() =~= all.subrange(0, i as int));
        assert(docs@[i as int]@ == all[i as int]);
        if !docs[i].chunk.is_chunk_empty(ignored_blocks) {
            let mut held = Located { x: 0, z: 0, chunk: Chunk { root: Vec::new() } };
            std::mem::swap(&mut held, &mut docs[i]);
            kept.push(held);
            assert(located_views(kept@) =~= before.push(all[i as int]));
        }
        i += 1;
    }
    assert(all.subrange(0, n as int) =~= all);
    kept
}

/// The chunks `kept` as they are written, each at the place of its
/// chunk and in one of the forms of its document. Fails with the place of
/// the first chunk that could not be written; no chunks are always
/// written.
pub fn encode_chunks(kept: Vec<Located>) -> (r: Result<Vec<Placed>, RegionError>)
    ensures
        match r {
            Ok(packed) => written_forms(located_views(kept@), placed_views(packed@)),
            Err(e) => e is Unwritable && kept@.len() > 0,
        },
{
    let mut docs = kept;
    let n: usize = docs.len();
    let mut packed: Vec<Placed> = Vec::new();
    let mut i: usize = 0;
    while i < n
        invariant
            i <= n,
            docs@.len() == n,
            kept@.len() == n,
            packed@.len() == i,
            forall|j: int| i <= j < n ==> #[trigger] docs@[j] == kept@[j],
            forall|j: int|
                0 <= j < i ==> (#[trigger] packed@[j]).x == kept@[j].x && packed@[j].z
                    == kept@[j].z && forms(TagV::Compound(kept@[j].chunk@)).contains(
                    packed@[j].data@,
                ),
        decreases n - i,
    {
        let mut held = Located { x: 0, z: 0, chunk: Chunk { root: Vec::new() } };
        std::mem::swap(&mut held, &mut docs[i]);
        assert(held == kept@[i as int]);
        let Located { x, z, chunk } = held;
        match encode(chunk.into_tag()) {
            Ok(data) => {
                packed.push(Placed { x, z, data });
            },
            Err(e) => {
                return Err(RegionError::Unwritable(x, z, e));
            },
        }
        i += 1;
    }
    assert forall|j: int| 0 <= j < n implies (#[trigger] located_views(kept@)[j]).x == placed_views(
        packed@,
    )[j].x && located_views(kept@)[j].z == placed_views(packed@)[j].z by {
        assert(packed@[j].x == kept@[j].x);
    }
    assert forall|j: int| 0 <= j < n implies forms(
        TagV::Compound(located_views(kept@)[j].root),
    ).contains((#[trigger] placed_views(packed@)[j]).data) by {
        assert(packed@[j].x == kept@[j].x);
    }
    Ok(packed)
}

/// A new container that holds the chunks `chunks`, written in order. It
/// is made exactly when a new region takes every chunk, and is never
/// smaller than the two header tables.
pub fn build(chunks: &Vec<Placed>) -> (r: Result<Vec<u8>, RegionError>)
    ensures
        match r {
            Ok(bytes) => all_placeable(placed_views(chunks@), chunks@.len() as int) && bytes@
                == container(placed_views(chunks@)) && bytes@.len() >= 8192 && (bytes@.len()
                > 8192 <==> chunks@.len() > 0),
            Err(e) => e is Write && !all_placeable(placed_views(chunks@), chunks@.len() as int),
        },
{
    let mut region = region_create().unwrap();
    let mut i: usize = 0;
    assert(placed_views(chunks@).subrange(0, 0) =~= Seq::<PlacedV>::empty());
    while i < chunks.len()
        invariant
            i <= chunks@.len(),
            is_new(region),
            all_placeable(placed_views(chunks@), i as int),
            written(region) == placed_views(chunks@).subrange(0, i as int),
        decreases chunks@.len() - i,
    {
        match region_write(&mut region, chunks[i].x, chunks[i].z, chunks[i].data.as_slice()) {
            Ok(_) => {},
            Err(e) => {
                assert(!placeable(
                    placed_views(chunks@)[i as int].x,
                    placed_views(chunks@)[i as int].z,
                    placed_views(chunks@)[i as int].data,
                ));
                return Err(RegionError::Write(e));
            },
        }
        assert(placeable(
            placed_views(chunks@)[i as int].x,
            placed_views(chunks@)[i as int].z,
            placed_views(chunks@)[i as int].data,
        ));
        assert(written(region) =~= placed_views(chunks@).subrange(0, i + 1));
        i += 1;
    }
    assert(placed_views(chunks@).subrange(0, i as int) =~= placed_views(chunks@));
    Ok(region_into_bytes(region).unwrap())
}

/// A region container that was opened for reading.
pub struct RegionFile {
    pub chunks: fastanvil::Region<std::io::Cursor<Vec<u8>>>,
}

impl RegionFile {
    /// The bytes of this container.
    pub open spec fn bytes(&self) -> Seq<u8> {
        region_bytes(self.chunks)
    }

    /// A region that was loaded can be read.
    pub open spec fn wf(&self) -> bool {
        readable(self.bytes())
    }

    /// Opens the container `bytes`. Succeeds exactly when the container
    /// can be read, and fails with `Truncated` or `Broken` when it cannot.
    pub fn load(bytes: Vec<u8>) -> (r: Result<RegionFile, RegionError>)
        ensures
            match r {
                Ok(region) => readable(bytes@) && region.wf() && region.bytes() == bytes@,
                Err(RegionError::Truncated) => bytes@.len() < 4096,
                Err(RegionError::Broken(slot)) => bytes@.len() >= 4096 && slot < SLOTS && broken(
                    bytes@,
                    slot as int,
                ) && none_broken(bytes@, slot as int),
                Err(_) => false,
            },
    {
        match check_readable(&bytes) {
            Ok(_) => {},
            Err(e) => {
                return Err(e);
            },
        }
        Ok(RegionFile { chunks: region_open(bytes).unwrap() })
    }

    /// The container without its empty chunks, with the ignored blocks of
    /// `config` as the blocks that do not count. It succeeds whenever the
    /// container can be pruned and no chunk is kept; where chunks are
    /// kept, writing them decides.
    pub fn optimize_bytes(&mut self, config: &Config) -> (r: Result<Vec<u8>, RegionError>)
        requires
            old(self).wf(),
        ensures
            final(self).bytes() == old(self).bytes(),
            match r {
                Ok(out) => optimized(old(self).bytes(), string_views(config.ignored_blocks@), out@),
                Err(e) => !(e is Truncated) && !(e is Broken) && refused(
                    old(self).bytes(),
                    string_views(config.ignored_blocks@),
                    e,
                ),
            },
            prunable(old(self).bytes()) && survivors(
                old(self).bytes(),
                string_views(config.ignored_blocks@),
            ).len() == 0 ==> r is Ok,
    {
        let ghost bytes = self.bytes();
        let ghost ignored = string_views(config.ignored_blocks@);
        let raw: Vec<Placed> = match read_chunks(&mut self.chunks) {
            Ok(raw) => raw,
            Err(e) => {
                return Err(e);
            },
        };
        let docs: Vec<Located> = match decode_chunks(&raw) {
            Ok(docs) => docs,
            Err(e) => {
                proof {
                    lemma_fault_is_no_chunk(payloads(bytes, SLOTS as int));
                }
                return Err(e);
            },
        };
        let kept: Vec<Located> = prune(docs, &config.ignored_blocks);
        assert(located_views(kept@) == survivors(bytes, ignored));
        let packed: Vec<Placed> = match encode_chunks(kept) {
            Ok(packed) => packed,
            Err(e) => {
                return Err(e);
            },
        };
        match build(&packed) {
            Ok(out) => {
                assert(rebuilt(bytes, ignored, placed_views(packed@), out@));
                Ok(out)
            },
            Err(e) => Err(e),
        }
    }
}

/// The container `bytes` without its empty chunks, with the ignored blocks
/// of `config` as the blocks that do not count. An error says what is
/// wrong with the container, as far as the container decides it. It
/// succeeds whenever the container can be read and pruned and no chunk is
/// kept; where chunks are kept, writing them decides.
pub fn optimize(bytes: Vec<u8>, config: &Config) -> (r: Result<Vec<u8>, RegionError>)
    ensures
        match r {
            Ok(out) => readable(bytes@) && optimized(
                bytes@,
                string_views(config.ignored_blocks@),
                out@,
            ),
            Err(e) => refused(bytes@, string_views(config.ignored_blocks@), e),
        },
        readable(bytes@) && prunable(bytes@) && survivors(
            bytes@,
            string_views(config.ignored_blocks@),
        ).len() == 0 ==> r is Ok,
{
    let mut region = match RegionFile::load(bytes) {
        Ok(region) => region,
        Err(e) => {
            return Err(e);
        },
    };
    region.optimize_bytes(config)
}

} // verus!
