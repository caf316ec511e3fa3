//! Tag-tree documents: the tree that the transforms work on, and the codec
//! that reads it from bytes and writes it back.
//!
//! The binary format and its compression are the work of `fastnbt` and
//! `flate2`. A document is held here as a tree of the three kinds of tag the
//! transforms look into (strings, lists, compounds); every other tag is
//! carried through as the codec's own value.

use vstd::prelude::*;
use crate::text::same_text;

verus! {

/// `fastnbt::Value`, a tag as the codec holds it. Nothing is known of what
/// is inside.
#[verifier::external_type_specification]
#[verifier::external_body]
pub struct ExValue(fastnbt::Value);

/// `fastnbt::error::Error`, what the codec reports.
#[verifier::external_type_specification]
#[verifier::external_body]
pub struct ExNbtError(fastnbt::error::Error);

/// `std::io::Error`, what compression reports.
#[verifier::external_type_specification]
#[verifier::external_body]
pub struct ExIoError(std::io::Error);

/// A tag of a document.
#[derive(Debug, PartialEq)]
pub enum Tag {
    /// A string.
    Str(String),
    /// A list of tags.
    List(Vec<Tag>),
    /// Named tags. Where a name occurs twice, the later tag counts.
    Compound(Vec<Named>),
    /// A number or an array, which no transform looks into.
    Other(fastnbt::Value),
}

/// A tag of a compound, with its name.
#[derive(Debug, PartialEq)]
pub struct Named {
    pub name: String,
    pub tag: Tag,
}

/// What a [`Named`] tag stands for.
pub struct NamedV {
    pub name: Seq<char>,
    pub tag: TagV,
}

/// What a [`Tag`] stands for. A compound is the map from its names to
/// their tags: the order in which it holds them is no part of it.
pub enum TagV {
    Str(Seq<char>),
    List(Seq<TagV>),
    Compound(Map<Seq<char>, TagV>),
    Other(fastnbt::Value),
}

/// The map that a sequence of named tags makes: each name with the last
/// tag of that name.
pub open spec fn map_of(entries: Seq<NamedV>) -> Map<Seq<char>, TagV>
    decreases entries.len(),
{
    if entries.len() == 0 {
        Map::empty()
    } else {
        map_of(entries.drop_last()).insert(entries.last().name, entries.last().tag)
    }
}

/// What the tag `tag` stands for.
pub open spec fn tag_view(tag: Tag) -> TagV
    decreases tag, 0nat,
{
    match tag {
        Tag::Str(s) => TagV::Str(s@),
        Tag::List(items) => TagV::List(list_view(items@)),
        Tag::Compound(entries) => TagV::Compound(compound_view(entries@)),
        Tag::Other(v) => TagV::Other(v),
    }
}

/// What the items of a list stand for.
pub open spec fn list_view(items: Seq<Tag>) -> Seq<TagV>
    decreases items, items.len(),
{
    if items.len() == 0 {
        Seq::empty()
    } else {
        list_view(items.drop_last()).push(tag_view(items.last()))
    }
}

/// What the entries of a compound stand for.
pub open spec fn compound_view(entries: Seq<Named>) -> Map<Seq<char>, TagV>
    decreases entries, entries.len(),
{
    if entries.len() == 0 {
        Map::empty()
    } else {
        compound_view(entries.drop_last()).insert(
            entries.last().name@,
            tag_view(entries.last().tag),
        )
    }
}

impl View for Tag {
    type V = TagV;

    open spec fn view(&self) -> TagV {
        tag_view(*self)
    }
}

/// The tags of `items`, each by its view.
pub open spec fn tag_views(items: Seq<Tag>) -> Seq<TagV> {
    Seq::new(items.len(), |i: int| items[i]@)
}

/// The named tags of `entries`, each by its view.
pub open spec fn named_views(entries: Seq<Named>) -> Seq<NamedV> {
    Seq::new(entries.len(), |i: int| NamedV { name: entries[i].name@, tag: entries[i].tag@ })
}

/// The map that the named tags `entries` make.
pub open spec fn named_map(entries: Seq<Named>) -> Map<Seq<char>, TagV> {
    map_of(named_views(entries))
}

/// The strings of `items`, each by its view.
pub open spec fn string_views(items: Seq<String>) -> Seq<Seq<char>> {
    Seq::new(items.len(), |i: int| items[i]@)
}

/// The items of a list stand for what each of them stands for.
pub proof fn lemma_list_views(items: Seq<Tag>)
    ensures
        list_view(items) == tag_views(items),
    decreases items.len(),
{
    if items.len() > 0 {
        lemma_list_views(items.drop_last());
        assert(list_view(items) =~= tag_views(items));
    } else {
        assert(list_view(items) =~= tag_views(items));
    }
}

/// The entries of a compound stand for the map of their views.
pub proof fn lemma_compound_views(entries: Seq<Named>)
    ensures
        compound_view(entries) == named_map(entries),
    decreases entries.len(),
{
    if entries.len() > 0 {
        lemma_compound_views(entries.drop_last());
        assert(named_views(entries).drop_last() =~= named_views(entries.drop_last()));
    }
}

/// The view of a list is the views of its items.
pub proof fn lemma_list_view(items: Vec<Tag>)
    ensures
        Tag::List(items)@ == TagV::List(tag_views(items@)),
{
    lemma_list_views(items@);
}

/// The view of a compound is the map of its entries.
pub proof fn lemma_compound_view(entries: Vec<Named>)
    ensures
        Tag::Compound(entries)@ == TagV::Compound(named_map(entries@)),
{
    lemma_compound_views(entries@);
}

/// One more named tag is one more entry of the map, and replaces the
/// entry of its name.
pub proof fn lemma_named_map_push(entries: Seq<Named>, last: Named)
    ensures
        named_map(entries.push(last)) == named_map(entries).insert(last.name@, last.tag@),
{
    let views = named_views(entries.push(last));
    assert(views.drop_last() =~= named_views(entries));
}

/// The map of some named tags holds the name of the last of them.
pub proof fn lemma_named_map_holds_last(entries: Seq<Named>)
    requires
        entries.len() > 0,
    ensures
        named_map(entries).contains_key(entries.last().name@),
        named_map(entries) != Map::<Seq<char>, TagV>::empty(),
{
    let views = named_views(entries);
    assert(views.last().name == entries.last().name@);
    assert(map_of(views).contains_key(views.last().name));
}

/// The tag named `key` in `map`.
pub open spec fn lookup(map: Map<Seq<char>, TagV>, key: Seq<char>) -> Option<TagV> {
    if map.contains_key(key) {
        Some(map[key])
    } else {
        None
    }
}

/// `map` without the tag named `key`.
pub open spec fn without(map: Map<Seq<char>, TagV>, key: Seq<char>) -> Map<Seq<char>, TagV> {
    map.remove(key)
}

/// The strings that a list of string tags holds; none if one of the tags
/// is no string.
pub open spec fn strings_of(items: Seq<TagV>) -> Option<Seq<Seq<char>>> {
    if forall|i: int| 0 <= i < items.len() ==> items[i] is Str {
        Some(Seq::new(items.len(), |i: int| items[i]->Str_0))
    } else {
        None
    }
}

/// The list of string tags that holds `items`.
pub open spec fn string_tags(items: Seq<Seq<char>>) -> Seq<TagV> {
    Seq::new(items.len(), |i: int| TagV::Str(items[i]))
}

/// What a gzip stream unpacks to; none where the bytes are no gzip stream.
pub uninterp spec fn gunzip(packed: Seq<u8>) -> Option<Seq<u8>>;

/// The gzip stream that the fast compression level makes of some bytes;
/// none where the bytes cannot be packed.
pub uninterp spec fn gzipped(plain: Seq<u8>) -> Option<Seq<u8>>;

/// Reads a gzip stream to its end with `flate2::read::GzDecoder`. The
/// contract names what comes out: the unpacked bytes, or an error exactly
/// where the decoder reports one.
#[verifier::external_body]
pub(crate) fn gzip_decode(packed: &[u8]) -> (r: Result<Vec<u8>, std::io::Error>)
    ensures
        match r {
            Ok(plain) => gunzip(packed@) == Some(plain@),
            Err(_) => gunzip(packed@) is None,
        },
{
    let mut plain = Vec::new();
    std::io::Read::read_to_end(&mut flate2::read::GzDecoder::new(packed), &mut plain)?;
    Ok(plain)
}

/// Packs bytes with `flate2::write::GzEncoder` at `Compression::fast()`. The
/// contract names what comes out: the stream, or an error exactly where
/// the encoder reports one. The encoder writes no time stamp, so both
/// depend on the bytes alone.
#[verifier::external_body]
pub(crate) fn gzip_encode(plain: &[u8]) -> (r: Result<Vec<u8>, std::io::Error>)
    ensures
        match r {
            Ok(packed) => gzipped(plain@) == Some(packed@),
            Err(_) => gzipped(plain@) is None,
        },
{
    let mut encoder = flate2::write::GzEncoder::new(Vec::new(), flate2::Compression::fast());
    std::io::Write::write_all(&mut encoder, plain)?;
    encoder.finish()
}

/// The document that uncompressed bytes hold; none where they hold no
/// tag tree.
pub uninterp spec fn document(bytes: Seq<u8>) -> Option<TagV>;

/// Parses a document with `fastnbt::from_bytes` into a `fastnbt::Value`,
/// and hands it over as a tag. The contract names the document: what the
/// parser reads depends on the bytes alone, and a compound of it has each
/// name once.
#[verifier::external_body]
pub(crate) fn document_from_bytes(bytes: &[u8]) -> (r: Result<Tag, fastnbt::error::Error>)
    ensures
        match r {
            Ok(tag) => document(bytes@) == Some(tag@),
            Err(_) => document(bytes@) is None,
        },
{
    fastnbt::from_bytes::<fastnbt::Value>(bytes).map(tag_from_value)
}

/// A tag that cannot be the root of a document: a string or a list.
pub open spec fn rootless(tag: TagV) -> bool {
    tag is Str || tag is List
}

/// The bytes begin as every document does: with the mark of a compound,
/// which is 10, and the name of the root, which is empty and so two bytes
/// of zero for its length.
pub open spec fn has_root_head(bytes: Seq<u8>) -> bool {
    bytes.len() >= 3 && bytes[0] == 10 && bytes[1] == 0 && bytes[2] == 0
}

/// The forms that the writer may give a document: it puts the tags of a
/// compound in no fixed order, so a document has as many forms as its
/// compounds have orders. Which of them are written depends on the
/// document alone.
pub uninterp spec fn forms(doc: TagV) -> Set<Seq<u8>>;

/// Writes a document with `fastnbt::to_bytes`, from the tag as a
/// `fastnbt::Value`. The writer refuses a string or a list as the root.
/// Whatever it writes is one of the forms of the document, and begins
/// with the head of an unnamed root compound.
#[verifier::external_body]
pub(crate) fn document_to_bytes(tag: Tag) -> (r: Result<Vec<u8>, fastnbt::error::Error>)
    ensures
        rootless(tag@) ==> r is Err,
        r matches Ok(bytes) ==> forms(tag@).contains(bytes@) && has_root_head(bytes@),
{
    fastnbt::to_bytes(&tag_into_value(tag))
}

/// Turns a `fastnbt::Value` into a tag, variant by variant: strings, lists
/// and compounds become tags of their own, anything else is kept as it is.
#[verifier::external_body]
pub(crate) fn tag_from_value(value: fastnbt::Value) -> (tag: Tag)
{
    match value {
        fastnbt::Value::String(s) => Tag::Str(s),
        fastnbt::Value::List(items) => Tag::List(items.into_iter().map(tag_from_value).collect()),
        fastnbt::Value::Compound(map) => Tag::Compound(
            map.into_iter().map(|(name, v)| Named { name, tag: tag_from_value(v) }).collect(),
        ),
        other => Tag::Other(other),
    }
}

/// Turns a tag back into a `fastnbt::Value`, variant by variant.
#[verifier::external_body]
pub(crate) fn tag_into_value(tag: Tag) -> (value: fastnbt::Value)
{
    match tag {
        Tag::Str(s) => fastnbt::Value::String(s),
        Tag::List(items) => fastnbt::Value::List(items.into_iter().map(tag_into_value).collect()),
        Tag::Compound(entries) => fastnbt::Value::Compound(
            entries.into_iter().map(|e| (e.name, tag_into_value(e.tag))).collect(),
        ),
        Tag::Other(value) => value,
    }
}

/// Why a document could not be read or written.
#[derive(Debug)]
pub enum CodecError {
    /// The bytes are no gzip stream, or packing failed.
    Gzip(std::io::Error),
    /// The bytes are no tag tree, or the tree could not be written.
    Nbt(fastnbt::error::Error),
}

/// The document that `bytes` hold, uncompressed. Fails exactly when the
/// bytes hold no tag tree.
pub fn decode(bytes: &[u8]) -> (r: Result<Tag, CodecError>)
    ensures
        match r {
            Ok(tag) => document(bytes@) == Some(tag@),
            Err(e) => e is Nbt && document(bytes@) is None,
        },
{
    match document_from_bytes(bytes) {
        Ok(tag) => Ok(tag),
        Err(e) => Err(CodecError::Nbt(e)),
    }
}

/// The bytes of the document `tag`, uncompressed. A string or a list is
/// no document and is refused; what is written is one of the forms of the
/// document, and begins with the head of an unnamed root compound.
pub fn encode(tag: Tag) -> (r: Result<Vec<u8>, CodecError>)
    ensures
        match r {
            Ok(bytes) => !rootless(tag@) && forms(tag@).contains(bytes@) && has_root_head(
                bytes@,
            ),
            Err(e) => e is Nbt,
        },
{
    match document_to_bytes(tag) {
        Ok(bytes) => Ok(bytes),
        Err(e) => Err(CodecError::Nbt(e)),
    }
}

/// The bytes are a gzip stream that the fast compression level makes.
pub open spec fn is_gzipped(packed: Seq<u8>) -> bool {
    exists|plain: Seq<u8>| #[trigger] gzipped(plain) == Some(packed)
}

/// The bytes are the gzip stream of one of the forms of the document.
pub open spec fn packs(doc: TagV, packed: Seq<u8>) -> bool {
    exists|plain: Seq<u8>| forms(doc).contains(plain) && #[trigger] gzipped(plain) == Some(packed)
}

/// The bytes are the gzip stream of bytes that begin as a document does.
pub open spec fn is_packed_document(packed: Seq<u8>) -> bool {
    exists|plain: Seq<u8>| has_root_head(plain) && #[trigger] gzipped(plain) == Some(packed)
}

/// One of the forms of the document cannot be packed.
pub open spec fn has_unpackable_form(doc: TagV) -> bool {
    exists|plain: Seq<u8>| forms(doc).contains(plain) && (#[trigger] gzipped(plain)) is None
}

/// The document of a compressed file, if the file holds one: the bytes
/// unpacked, then parsed.
pub open spec fn loaded(packed: Seq<u8>) -> Option<TagV> {
    match gunzip(packed) {
        Some(plain) => document(plain),
        None => None,
    }
}

/// The document of a gzip-compressed file. Fails with `Gzip` exactly when
/// the bytes are no gzip stream, and with `Nbt` exactly when what they
/// unpack to holds no tag tree.
pub fn load(packed: &[u8]) -> (r: Result<Tag, CodecError>)
    ensures
        match r {
            Ok(tag) => loaded(packed@) == Some(tag@),
            Err(CodecError::Gzip(_)) => gunzip(packed@) is None,
            Err(CodecError::Nbt(_)) => gunzip(packed@) is Some && loaded(packed@) is None,
        },
{
    match gzip_decode(packed) {
        Ok(plain) => decode(plain.as_slice()),
        Err(e) => Err(CodecError::Gzip(e)),
    }
}

/// The gzip-compressed file of the document `tag`: the tree is written,
/// then packed. A string or a list is no document and is refused with
/// `Nbt`; what comes out is the gzip stream of one of the forms of the
/// document. It fails with `Gzip` only where the form that was written
/// cannot be packed.
pub fn to_bytes(tag: Tag) -> (r: Result<Vec<u8>, CodecError>)
    ensures
        match r {
            Ok(packed) => !rootless(tag@) && packs(tag@, packed@) && is_packed_document(packed@)
                && is_gzipped(packed@),
            Err(CodecError::Nbt(_)) => true,
            Err(CodecError::Gzip(_)) => !rootless(tag@) && has_unpackable_form(tag@),
        },
{
    let ghost doc = tag@;
    match encode(tag) {
        Ok(plain) => {
            let r = pack(plain.as_slice());
            proof {
                assert(forms(doc).contains(plain@));
                if r is Ok {
                    assert(has_root_head(plain@) && gzipped(plain@) == Some(r->Ok_0@));
                } else {
                    assert(gzipped(plain@) is None);
                }
            }
            r
        },
        Err(e) => Err(e),
    }
}

/// The gzip stream of `plain`. Fails, with `Gzip`, exactly when the bytes
/// cannot be packed.
pub fn pack(plain: &[u8]) -> (r: Result<Vec<u8>, CodecError>)
    ensures
        match r {
            Ok(packed) => gzipped(plain@) == Some(packed@),
            Err(e) => e is Gzip && gzipped(plain@) is None,
        },
{
    match gzip_encode(plain) {
        Ok(packed) => Ok(packed),
        Err(e) => Err(CodecError::Gzip(e)),
    }
}

/// The tag named `key` among `entries`: the last of that name.
pub fn get<'a>(entries: &'a Vec<Named>, key: &str) -> (r: Option<&'a Tag>)
    ensures
        match r {
            Some(tag) => lookup(named_map(entries@), key@) == Some(tag@),
            None => lookup(named_map(entries@), key@) is None,
        },
{
    let mut found: Option<usize> = None;
    let mut i: usize = 0;
    assert(named_views(entries@).subrange(0, 0) =~= Seq::<NamedV>::empty());
    while i < entries.len()
        invariant
            i <= entries@.len(),
            match found {
                Some(j) => j < i && lookup(
                    map_of(named_views(entries@).subrange(0, i as int)),
                    key@,
                ) == Some(entries@[j as int].tag@),
                None => lookup(map_of(named_views(entries@).subrange(0, i as int)), key@) is None,
            },
        decreases entries@.len() - i,
    {
        assert(named_views(entries@).subrange(0, i + 1).drop_last() =~= named_views(
            entries@,
        ).subrange(0, i as int));
        if same_text(entries[i].name.as_str(), key) {
            found = Some(i);
        }
        i += 1;
    }
    assert(named_views(entries@).subrange(0, i as int) =~= named_views(entries@));
    match found {
        Some(j) => Some(&entries[j].tag),
        None => None,
    }
}

/// Takes the tags named `key` out of `entries`, and hands out the one that
/// counted: the last of them.
pub fn take(entries: &mut Vec<Named>, key: &str) -> (r: Option<Tag>)
    ensures
        match r {
            Some(tag) => lookup(named_map(old(entries)@), key@) == Some(tag@),
            None => lookup(named_map(old(entries)@), key@) is None,
        },
        named_map(final(entries)@) == without(named_map(old(entries)@), key@),
{
    let ghost all = named_views(entries@);
    let n: usize = entries.len();
    let mut rest: Vec<Named> = Vec::new();
    let mut found: Option<Tag> = None;
    let mut i: usize = 0;
    assert(all.subrange(0, 0) =~= Seq::<NamedV>::empty());
    assert(named_map(rest@) =~= map_of(all.subrange(0, 0)).remove(key@));
    while i < n
        invariant
            i <= n,
            entries@.len() == n,
            all.len() == n,
            all == named_views(old(entries)@),
            forall|j: int|
                i <= j < n ==> (#[trigger] entries@[j]).name@ == all[j].name && entries@[j].tag@
                    == all[j].tag,
            named_map(rest@) == map_of(all.subrange(0, i as int)).remove(key@),
            match found {
                Some(tag) => lookup(map_of(all.subrange(0, i as int)), key@) == Some(tag@),
                None => lookup(map_of(all.subrange(0, i as int)), key@) is None,
            },
        decreases n - i,
    {
        let ghost front = all.subrange(0, i as int);
        assert(all.subrange(0, i + 1).drop_last() =~= front);
        let mut held = Named { name: String::new(), tag: Tag::List(Vec::new()) };
        std::mem::swap(&mut held, &mut entries[i]);
        assert(held.name@ == all[i as int].name && held.tag@ == all[i as int].tag);
        if same_text(held.name.as_str(), key) {
            assert(map_of(all.subrange(0, i + 1)).remove(key@) =~= map_of(front).remove(key@));
            found = Some(held.tag);
        } else {
            proof {
                lemma_named_map_push(rest@, held);
            }
            assert(map_of(all.subrange(0, i + 1)).remove(key@) =~= map_of(front).remove(
                key@,
            ).insert(held.name@, held.tag@));
            rest.push(held);
        }
        i += 1;
    }
    assert(all.subrange(0, n as int) =~= all);
    *entries = rest;
    found
}

} // verus!
