//! Chunks: the documents that a region container holds, and the rule that
//! says which of them are empty.

use vstd::prelude::*;
use crate::nbt::{
    get, lemma_compound_view, lemma_list_view, lemma_named_map_holds_last, lookup, named_map,
    string_views, tag_views, Named, Tag, TagV,
};
use crate::text::same_text;

verus! {

/// The parts of a chunk document that have a fixed shape, in the order in
/// which they are checked. An error names the first part of the wrong
/// shape.
#[derive(Debug, Clone, Copy, PartialEq, Eq, Structural)]
pub enum ChunkField {
    Root,
    /// `Sections`, the points of interest.
    Poi,
    Entities,
    /// `sections`, the vertical sections.
    Sections,
    BlockEntities,
}

/// A chunk: a document whose known parts have the right shape.
#[derive(Debug)]
pub struct Chunk {
    /// The tags of the root compound.
    pub root: Vec<Named>,
}

impl View for Chunk {
    type V = Map<Seq<char>, TagV>;

    open spec fn view(&self) -> Map<Seq<char>, TagV> {
        named_map(self.root@)
    }
}

/// Every tag of `items` is a compound.
pub open spec fn all_compounds(items: Seq<TagV>) -> bool {
    forall|i: int| 0 <= i < items.len() ==> (#[trigger] items[i]) is Compound
}

/// The tag named `key` is absent or a list of compounds.
pub open spec fn compounds_or_absent(root: Map<Seq<char>, TagV>, key: Seq<char>) -> bool {
    match lookup(root, key) {
        None => true,
        Some(TagV::List(items)) => all_compounds(items),
        _ => false,
    }
}

/// A palette entry: a compound with a string `Name`.
pub open spec fn is_palette_item(item: TagV) -> bool {
    item matches TagV::Compound(entries) && lookup(entries, "Name"@) matches Some(TagV::Str(_))
}

/// Every tag of `items` is a palette entry.
pub open spec fn all_palette_items(items: Seq<TagV>) -> bool {
    forall|i: int| 0 <= i < items.len() ==> is_palette_item(#[trigger] items[i])
}

/// Block states: a compound with a list `palette` of palette entries.
pub open spec fn is_block_states(states: TagV) -> bool {
    states matches TagV::Compound(entries) && lookup(entries, "palette"@) matches Some(
        TagV::List(items),
    ) && all_palette_items(items)
}

/// A section: a compound whose `block_states`, where it has them, are
/// block states.
pub open spec fn is_section(section: TagV) -> bool {
    section matches TagV::Compound(entries) && match lookup(entries, "block_states"@) {
        None => true,
        Some(states) => is_block_states(states),
    }
}

/// Every tag of `items` is a section.
pub open spec fn all_sections(items: Seq<TagV>) -> bool {
    forall|i: int| 0 <= i < items.len() ==> is_section(#[trigger] items[i])
}

/// The tag `sections` is absent or a list of sections.
pub open spec fn sections_or_absent(root: Map<Seq<char>, TagV>) -> bool {
    match lookup(root, "sections"@) {
        None => true,
        Some(TagV::List(items)) => all_sections(items),
        _ => false,
    }
}

/// The tag `Sections` is absent or a compound.
pub open spec fn poi_or_absent(root: Map<Seq<char>, TagV>) -> bool {
    match lookup(root, "Sections"@) {
        None => true,
        Some(TagV::Compound(_)) => true,
        _ => false,
    }
}

/// Checks the shape of a chunk document: a root compound in which
/// `Sections`, where present, is a compound, `Entities` and
/// `block_entities` are lists of compounds, and `sections` is a list of
/// sections.
pub open spec fn check_chunk(doc: TagV) -> Result<Map<Seq<char>, TagV>, ChunkField> {
    match doc {
        TagV::Compound(root) => {
            if !poi_or_absent(root) {
                Err(ChunkField::Poi)
            } else if !compounds_or_absent(root, "Entities"@) {
                Err(ChunkField::Entities)
            } else if !sections_or_absent(root) {
                Err(ChunkField::Sections)
            } else if !compounds_or_absent(root, "block_entities"@) {
                Err(ChunkField::BlockEntities)
            } else {
                Ok(root)
            }
        },
        _ => Err(ChunkField::Root),
    }
}

/// The chunk has a status, and it is not that of a fully generated chunk,
/// in either spelling.
pub open spec fn not_fully_generated(root: Map<Seq<char>, TagV>) -> bool {
    match lookup(root, "Status"@) {
        Some(status) => status != TagV::Str("full"@) && status != TagV::Str("minecraft:full"@),
        None => false,
    }
}

/// The tag named `key` is a list that holds something.
pub open spec fn has_list_items(root: Map<Seq<char>, TagV>, key: Seq<char>) -> bool {
    lookup(root, key) matches Some(TagV::List(items)) && items.len() > 0
}

/// The tag named `key` is a compound that holds something.
pub open spec fn has_compound_entries(root: Map<Seq<char>, TagV>, key: Seq<char>) -> bool {
    lookup(root, key) matches Some(TagV::Compound(entries)) && entries != Map::<
        Seq<char>,
        TagV,
    >::empty()
}

/// The palette entry names a block that is not ignored.
pub open spec fn is_kept_block(item: TagV, ignored: Seq<Seq<char>>) -> bool {
    item matches TagV::Compound(entries) && lookup(entries, "Name"@) matches Some(
        TagV::Str(name),
    ) && !ignored.contains(name)
}

/// One of the palette entries names a block that is not ignored.
pub open spec fn any_kept_block(items: Seq<TagV>, ignored: Seq<Seq<char>>) -> bool {
    exists|i: int| 0 <= i < items.len() && is_kept_block(#[trigger] items[i], ignored)
}

/// The palette of the section holds a block that is not ignored.
pub open spec fn section_has_blocks(section: TagV, ignored: Seq<Seq<char>>) -> bool {
    section matches TagV::Compound(entries) && lookup(entries, "block_states"@) matches Some(
        TagV::Compound(states),
    ) && lookup(states, "palette"@) matches Some(TagV::List(items)) && any_kept_block(
        items,
        ignored,
    )
}

/// One of the sections holds a block that is not ignored.
pub open spec fn any_section_has_blocks(sections: Seq<TagV>, ignored: Seq<Seq<char>>) -> bool {
    exists|i: int| 0 <= i < sections.len() && section_has_blocks(#[trigger] sections[i], ignored)
}

/// Some section of the chunk holds a block that is not ignored.
pub open spec fn has_blocks(root: Map<Seq<char>, TagV>, ignored: Seq<Seq<char>>) -> bool {
    lookup(root, "sections"@) matches Some(TagV::List(sections)) && any_section_has_blocks(
        sections,
        ignored,
    )
}

/// The chunk holds something worth keeping: a block entity, an entity, a
/// point of interest, or a block that is not ignored.
pub open spec fn has_content(root: Map<Seq<char>, TagV>, ignored: Seq<Seq<char>>) -> bool {
    has_list_items(root, "block_entities"@) || has_list_items(root, "Entities"@)
        || has_compound_entries(root, "Sections"@) || has_blocks(root, ignored)
}

/// A chunk is empty when it is not fully generated, or when it holds
/// nothing worth keeping.
pub open spec fn chunk_is_empty(root: Map<Seq<char>, TagV>, ignored: Seq<Seq<char>>) -> bool {
    not_fully_generated(root) || !has_content(root, ignored)
}

/// A chunk that is not fully generated is empty, whatever else it holds.
pub proof fn lemma_not_fully_generated_is_empty(root: Map<Seq<char>, TagV>, ignored: Seq<Seq<char>>)
    requires
        not_fully_generated(root),
    ensures
        chunk_is_empty(root, ignored),
{
}

/// Whether `name` is among `names`.
pub fn contains(names: &Vec<String>, name: &str) -> (r: bool)
    ensures
        r == string_views(names@).contains(name@),
{
    let mut i: usize = 0;
    while i < names.len()
        invariant
            i <= names@.len(),
            forall|j: int| 0 <= j < i ==> string_views(names@)[j] != name@,
        decreases names@.len() - i,
    {
        if same_text(names[i].as_str(), name) {
            assert(string_views(names@)[i as int] == name@);
            return true;
        }
        i += 1;
    }
    false
}

/// Whether every tag of `items` is a compound.
fn are_compounds(items: &Vec<Tag>) -> (r: bool)
    ensures
        r == all_compounds(tag_views(items@)),
{
    let mut i: usize = 0;
    while i < items.len()
        invariant
            i <= items@.len(),
            forall|j: int| 0 <= j < i ==> (#[trigger] tag_views(items@)[j]) is Compound,
        decreases items@.len() - i,
    {
        match &items[i] {
            Tag::Compound(_) => {},
            _ => {
                assert(!(tag_views(items@)[i as int] is Compound));
                return false;
            },
        }
        i += 1;
    }
    true
}

/// Whether the tag named `key` is absent or a list of compounds.
fn is_compounds_or_absent(root: &Vec<Named>, key: &str) -> (r: bool)
    ensures
        r == compounds_or_absent(named_map(root@), key@),
{
    match get(root, key) {
        None => true,
        Some(Tag::List(items)) => {
            proof {
                lemma_list_view(*items);
            }
            are_compounds(items)
        },
        Some(_) => false,
    }
}

/// Whether `item` is a palette entry.
fn check_palette_item(item: &Tag) -> (r: bool)
    ensures
        r == is_palette_item(item@),
{
    match item {
        Tag::Compound(entries) => {
            proof {
                lemma_compound_view(*entries);
            }
            match get(entries, "Name") {
                Some(Tag::Str(_)) => true,
                _ => false,
            }
        },
        _ => false,
    }
}

/// Whether every tag of `items` is a palette entry.
fn are_palette_items(items: &Vec<Tag>) -> (r: bool)
    ensures
        r == all_palette_items(tag_views(items@)),
{
    let mut i: usize = 0;
    while i < items.len()
        invariant
            i <= items@.len(),
            forall|j: int| 0 <= j < i ==> is_palette_item(#[trigger] tag_views(items@)[j]),
        decreases items@.len() - i,
    {
        if !check_palette_item(&items[i]) {
            assert(!is_palette_item(tag_views(items@)[i as int]));
            return false;
        }
        i += 1;
    }
    true
}

/// Whether `states` are block states.
fn check_block_states(states: &Tag) -> (r: bool)
    ensures
        r == is_block_states(states@),
{
    match states {
        Tag::Compound(entries) => {
            proof {
                lemma_compound_view(*entries);
            }
            match get(entries, "palette") {
                Some(Tag::List(items)) => {
                    proof {
                        lemma_list_view(*items);
                    }
                    are_palette_items(items)
                },
                _ => false,
            }
        },
        _ => false,
    }
}

/// Whether `section` is a section.
fn check_section(section: &Tag) -> (r: bool)
    ensures
        r == is_section(section@),
{
    match section {
        Tag::Compound(entries) => {
            proof {
                lemma_compound_view(*entries);
            }
            match get(entries, "block_states") {
                None => true,
                Some(states) => check_block_states(states),
            }
        },
        _ => false,
    }
}

/// Whether every tag of `items` is a section.
fn are_sections(items: &Vec<Tag>) -> (r: bool)
    ensures
        r == all_sections(tag_views(items@)),
{
    let mut i: usize = 0;
    while i < items.len()
        invariant
            i <= items@.len(),
            forall|j: int| 0 <= j < i ==> is_section(#[trigger] tag_views(items@)[j]),
        decreases items@.len() - i,
    {
        if !check_section(&items[i]) {
            assert(!is_section(tag_views(items@)[i as int]));
            return false;
        }
        i += 1;
    }
    true
}

/// Whether the tag `sections` is absent or a list of sections.
fn check_sections(root: &Vec<Named>) -> (r: bool)
    ensures
        r == sections_or_absent(named_map(root@)),
{
    match get(root, "sections") {
        None => true,
        Some(Tag::List(items)) => {
            proof {
                lemma_list_view(*items);
            }
            are_sections(items)
        },
        Some(_) => false,
    }
}

/// Whether the tag `Sections` is absent or a compound.
fn check_poi(root: &Vec<Named>) -> (r: bool)
    ensures
        r == poi_or_absent(named_map(root@)),
{
    match get(root, "Sections") {
        None => true,
        Some(Tag::Compound(entries)) => {
            proof {
                lemma_compound_view(*entries);
            }
            true
        },
        Some(_) => false,
    }
}

/// Whether the tag named `key` is a list that holds something.
fn list_has_items(root: &Vec<Named>, key: &str) -> (r: bool)
    ensures
        r == has_list_items(named_map(root@), key@),
{
    match get(root, key) {
        Some(Tag::List(items)) => {
            proof {
                lemma_list_view(*items);
            }
            items.len() > 0
        },
        _ => false,
    }
}

/// Whether the tag named `key` is a compound that holds something.
fn compound_has_entries(root: &Vec<Named>, key: &str) -> (r: bool)
    ensures
        r == has_compound_entries(named_map(root@), key@),
{
    match get(root, key) {
        Some(Tag::Compound(entries)) => {
            proof {
                lemma_compound_view(*entries);
                if entries@.len() > 0 {
                    lemma_named_map_holds_last(entries@);
                }
            }
            entries.len() > 0
        },
        _ => false,
    }
}

/// Whether the palette entry names a block that is not ignored.
fn names_kept_block(item: &Tag, ignored: &Vec<String>) -> (r: bool)
    ensures
        r == is_kept_block(item@, string_views(ignored@)),
{
    match item {
        Tag::Compound(entries) => {
            proof {
                lemma_compound_view(*entries);
            }
            match get(entries, "Name") {
                Some(Tag::Str(name)) => !contains(ignored, name.as_str()),
                _ => false,
            }
        },
        _ => false,
    }
}

/// Whether one of the palette entries names a block that is not ignored.
fn palette_has_blocks(items: &Vec<Tag>, ignored: &Vec<String>) -> (r: bool)
    ensures
        r == any_kept_block(tag_views(items@), string_views(ignored@)),
{
    let mut i: usize = 0;
    while i < items.len()
        invariant
            i <= items@.len(),
            forall|j: int|
                0 <= j < i ==> !is_kept_block(
                    #[trigger] tag_views(items@)[j],
                    string_views(ignored@),
                ),
        decreases items@.len() - i,
    {
        if names_kept_block(&items[i], ignored) {
            assert(is_kept_block(tag_views(items@)[i as int], string_views(ignored@)));
            return true;
        }
        i += 1;
    }
    false
}

/// Whether the palette of the section holds a block that is not ignored.
fn check_section_has_blocks(section: &Tag, ignored: &Vec<String>) -> (r: bool)
    ensures
        r == section_has_blocks(section@, string_views(ignored@)),
{
    match section {
        Tag::Compound(entries) => {
            proof {
                lemma_compound_view(*entries);
            }
            match get(entries, "block_states") {
                Some(Tag::Compound(states)) => {
                    proof {
                        lemma_compound_view(*states);
                    }
                    match get(states, "palette") {
                        Some(Tag::List(items)) => {
                            proof {
                                lemma_list_view(*items);
                            }
                            palette_has_blocks(items, ignored)
                        },
                        _ => false,
                    }
                },
                _ => false,
            }
        },
        _ => false,
    }
}

/// Whether one of the sections holds a block that is not ignored.
fn sections_have_blocks(sections: &Vec<Tag>, ignored: &Vec<String>) -> (r: bool)
    ensures
        r == any_section_has_blocks(tag_views(sections@), string_views(ignored@)),
{
    let mut i: usize = 0;
    while i < sections.len()
        invariant
            i <= sections@.len(),
            forall|j: int|
                0 <= j < i ==> !section_has_blocks(
                    #[trigger] tag_views(sections@)[j],
                    string_views(ignored@),
                ),
        decreases sections@.len() - i,
    {
        if check_section_has_blocks(&sections[i], ignored) {
            assert(section_has_blocks(tag_views(sections@)[i as int], string_views(ignored@)));
            return true;
        }
        i += 1;
    }
    false
}

/// Whether some section of the chunk holds a block that is not ignored.
fn check_has_blocks(root: &Vec<Named>, ignored: &Vec<String>) -> (r: bool)
    ensures
        r == has_blocks(named_map(root@), string_views(ignored@)),
{
    match get(root, "sections") {
        Some(Tag::List(sections)) => {
            proof {
                lemma_list_view(*sections);
            }
            sections_have_blocks(sections, ignored)
        },
        _ => false,
    }
}

/// Whether the chunk has a status other than that of a fully generated
/// chunk.
fn check_not_fully_generated(root: &Vec<Named>) -> (r: bool)
    ensures
        r == not_fully_generated(named_map(root@)),
{
    match get(root, "Status") {
        Some(Tag::Str(status)) => {
            !same_text(status.as_str(), "full") && !same_text(status.as_str(), "minecraft:full")
        },
        Some(_) => true,
        None => false,
    }
}

impl Chunk {
    /// The chunk that the document `tag` holds.
    pub fn new(tag: Tag) -> (r: Result<Chunk, ChunkField>)
        ensures
            match r {
                Ok(chunk) => check_chunk(tag@) == Ok::<Map<Seq<char>, TagV>, ChunkField>(chunk@),
                Err(field) => check_chunk(tag@) == Err::<Map<Seq<char>, TagV>, ChunkField>(field),
            },
    {
        let root: Vec<Named> = match tag {
            Tag::Compound(entries) => {
                proof {
                    lemma_compound_view(entries);
                }
                entries
            },
            _ => {
                return Err(ChunkField::Root);
            },
        };
        if !check_poi(&root) {
            Err(ChunkField::Poi)
        } else if !is_compounds_or_absent(&root, "Entities") {
            Err(ChunkField::Entities)
        } else if !check_sections(&root) {
            Err(ChunkField::Sections)
        } else if !is_compounds_or_absent(&root, "block_entities") {
            Err(ChunkField::BlockEntities)
        } else {
            Ok(Chunk { root })
        }
    }

    /// The document of this chunk.
    pub fn into_tag(self) -> (r: Tag)
        ensures
            r@ == TagV::Compound(self@),
    {
        proof {
            lemma_compound_view(self.root);
        }
        Tag::Compound(self.root)
    }

    /// Whether this chunk is empty, with `ignored_blocks` as the blocks
    /// that do not count.
    pub fn is_chunk_empty(&self, ignored_blocks: &Vec<String>) -> (r: bool)
        ensures
            r == chunk_is_empty(self@, string_views(ignored_blocks@)),
    {
        if check_not_fully_generated(&self.root) {
            return true;
        }
        let is_not_empty: bool = list_has_items(&self.root, "block_entities") || list_has_items(
            &self.root,
            "Entities",
        ) || compound_has_entries(&self.root, "Sections") || check_has_blocks(
            &self.root,
            ignored_blocks,
        );
        !is_not_empty
    }
}

} // verus!
