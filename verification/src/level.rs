//! The level metadata document and the changes that packaging makes to it.

use vstd::prelude::*;
use vstd::string::*;
use crate::config::Config;
use crate::nbt::{
    lemma_compound_view, lemma_list_view, lemma_named_map_push, lookup, named_map, string_tags,
    string_views, strings_of, tag_views, take, without, Named, Tag, TagV,
};
use crate::text::{joined, ends_with, has_prefix, has_suffix, starts_with};

verus! {

/// The lists of datapack references of a level.
#[derive(Debug)]
pub struct DataPacks {
    pub enabled: Vec<String>,
    pub disabled: Vec<String>,
    /// What else the compound holds.
    pub other: Vec<Named>,
}

/// The data of a level.
#[derive(Debug)]
pub struct Data {
    /// The display name of the world.
    pub name: String,
    /// The player's data.
    pub player: Vec<Named>,
    pub datapacks: DataPacks,
    /// What else the compound holds.
    pub other: Vec<Named>,
}

/// The level metadata document.
#[derive(Debug)]
pub struct Level {
    pub data: Data,
    /// What else the root holds.
    pub other: Vec<Named>,
}

/// What a [`Level`] stands for.
pub struct LevelV {
    pub name: Seq<char>,
    pub player: Map<Seq<char>, TagV>,
    pub enabled: Seq<Seq<char>>,
    pub disabled: Seq<Seq<char>>,
    pub packs_other: Map<Seq<char>, TagV>,
    pub data_other: Map<Seq<char>, TagV>,
    pub other: Map<Seq<char>, TagV>,
}

impl View for Level {
    type V = LevelV;

    open spec fn view(&self) -> LevelV {
        LevelV {
            name: self.data.name@,
            player: named_map(self.data.player@),
            enabled: string_views(self.data.datapacks.enabled@),
            disabled: string_views(self.data.datapacks.disabled@),
            packs_other: named_map(self.data.datapacks.other@),
            data_other: named_map(self.data.other@),
            other: named_map(self.other@),
        }
    }
}

/// The parts of a level document, in the order in which they are looked
/// for. An error names the first part that is missing or of the wrong kind.
#[derive(Debug, Clone, Copy, PartialEq, Eq, Structural)]
pub enum LevelField {
    Root,
    Data,
    LevelName,
    Player,
    DataPacks,
    Enabled,
    Disabled,
}

/// The strings of the list named `key`.
pub open spec fn read_strings(entries: Map<Seq<char>, TagV>, key: Seq<char>) -> Option<
    Seq<Seq<char>>,
> {
    match lookup(entries, key) {
        Some(TagV::List(items)) => strings_of(items),
        _ => None,
    }
}

/// Reads the `DataPacks` compound into `level`.
pub open spec fn read_packs(packs: Map<Seq<char>, TagV>, level: LevelV) -> Result<
    LevelV,
    LevelField,
> {
    match read_strings(packs, "Enabled"@) {
        Some(enabled) => {
            let rest = without(packs, "Enabled"@);
            match read_strings(rest, "Disabled"@) {
                Some(disabled) => Ok(
                    LevelV {
                        enabled,
                        disabled,
                        packs_other: without(rest, "Disabled"@),
                        ..level
                    },
                ),
                None => Err(LevelField::Disabled),
            }
        },
        None => Err(LevelField::Enabled),
    }
}

/// Reads the `Data` compound; `other` is what the root holds beside it.
pub open spec fn read_data(data: Map<Seq<char>, TagV>, other: Map<Seq<char>, TagV>) -> Result<
    LevelV,
    LevelField,
> {
    match lookup(data, "LevelName"@) {
        Some(TagV::Str(name)) => {
            let named = without(data, "LevelName"@);
            match lookup(named, "Player"@) {
                Some(TagV::Compound(player)) => {
                    let rest = without(named, "Player"@);
                    match lookup(rest, "DataPacks"@) {
                        Some(TagV::Compound(packs)) => read_packs(
                            packs,
                            LevelV {
                                name,
                                player,
                                enabled: Seq::empty(),
                                disabled: Seq::empty(),
                                packs_other: Map::empty(),
                                data_other: without(rest, "DataPacks"@),
                                other,
                            },
                        ),
                        _ => Err(LevelField::DataPacks),
                    }
                },
                _ => Err(LevelField::Player),
            }
        },
        _ => Err(LevelField::LevelName),
    }
}

/// The level that a document holds: a root compound with a compound
/// `Data`, in it the string `LevelName` and the compounds `Player` and
/// `DataPacks`, and in the latter the string lists `Enabled` and
/// `Disabled`. Whatever else the three compounds hold is kept beside.
pub open spec fn read_level(doc: TagV) -> Result<LevelV, LevelField> {
    match doc {
        TagV::Compound(root) => match lookup(root, "Data"@) {
            Some(TagV::Compound(data)) => read_data(data, without(root, "Data"@)),
            _ => Err(LevelField::Data),
        },
        _ => Err(LevelField::Root),
    }
}

/// The `DataPacks` compound of a level.
pub open spec fn write_packs(level: LevelV) -> Map<Seq<char>, TagV> {
    level.packs_other.insert("Enabled"@, TagV::List(string_tags(level.enabled))).insert(
        "Disabled"@,
        TagV::List(string_tags(level.disabled)),
    )
}

/// The `Data` compound of a level.
pub open spec fn write_data(level: LevelV) -> Map<Seq<char>, TagV> {
    level.data_other.insert("LevelName"@, TagV::Str(level.name)).insert(
        "Player"@,
        TagV::Compound(level.player),
    ).insert("DataPacks"@, TagV::Compound(write_packs(level)))
}

/// The document of a level: what each compound holds beside its named
/// parts, and the named parts.
pub open spec fn write_level(level: LevelV) -> TagV {
    TagV::Compound(level.other.insert("Data"@, TagV::Compound(write_data(level))))
}

/// What a level holds beside its named parts has none of their names.
pub open spec fn well_formed(level: LevelV) -> bool {
    &&& !level.other.contains_key("Data"@)
    &&& !level.data_other.contains_key("LevelName"@)
    &&& !level.data_other.contains_key("Player"@)
    &&& !level.data_other.contains_key("DataPacks"@)
    &&& !level.packs_other.contains_key("Enabled"@)
    &&& !level.packs_other.contains_key("Disabled"@)
}

/// The names of the parts of a level differ from one another.
pub proof fn lemma_names_differ()
    ensures
        "LevelName"@ != "Player"@,
        "LevelName"@ != "DataPacks"@,
        "Player"@ != "DataPacks"@,
        "Enabled"@ != "Disabled"@,
{
    reveal_strlit("LevelName");
    reveal_strlit("Player");
    reveal_strlit("DataPacks");
    reveal_strlit("Enabled");
    reveal_strlit("Disabled");
    assert("LevelName"@[0] == 'L');
    assert("Player"@[0] == 'P');
    assert("DataPacks"@[0] == 'D');
    assert("Enabled"@[0] == 'E');
    assert("Disabled"@[0] == 'D');
}

/// A level that was read is well formed.
pub proof fn lemma_read_is_well_formed(doc: TagV)
    requires
        read_level(doc) is Ok,
    ensures
        well_formed(read_level(doc)->Ok_0),
{
}

/// Reading the document of a level gives the level back.
pub proof fn lemma_level_round_trip(level: LevelV)
    requires
        well_formed(level),
    ensures
        read_level(write_level(level)) == Ok::<LevelV, LevelField>(level),
{
    lemma_names_differ();
    let root = write_level(level)->Compound_0;
    assert(without(root, "Data"@) =~= level.other);
    let data = write_data(level);
    let named_rest = without(data, "LevelName"@);
    let rest = without(named_rest, "Player"@);
    assert(without(rest, "DataPacks"@) =~= level.data_other);
    let packs = write_packs(level);
    assert(strings_of(string_tags(level.enabled)) == Some(level.enabled)) by {
        assert(strings_of(string_tags(level.enabled))->0 =~= level.enabled);
    }
    let packs_rest = without(packs, "Enabled"@);
    assert(strings_of(string_tags(level.disabled)) == Some(level.disabled)) by {
        assert(strings_of(string_tags(level.disabled))->0 =~= level.disabled);
    }
    assert(without(packs_rest, "Disabled"@) =~= level.packs_other);
}

/// A reference to a datapack that is a loose folder, `file/..`, gets the
/// archive's extension, unless it has it already; any other is kept.
pub open spec fn archived(reference: Seq<char>) -> Seq<char> {
    if has_prefix(reference, "file/"@) && !has_suffix(reference, ".zip"@) {
        reference + ".zip"@
    } else {
        reference
    }
}

/// Every reference of `list`, archived.
pub open spec fn all_archived(list: Seq<Seq<char>>) -> Seq<Seq<char>> {
    Seq::new(list.len(), |i: int| archived(list[i]))
}

/// The level after packaging: the name replaced where `name` gives one,
/// the player's data emptied where `reset_player` is set, and the
/// references to datapacks archived where `zip_datapacks` is set. All else
/// stays.
pub open spec fn packaged(
    level: LevelV,
    name: Option<Seq<char>>,
    reset_player: bool,
    zip_datapacks: bool,
) -> LevelV {
    LevelV {
        name: match name {
            Some(n) => n,
            None => level.name,
        },
        player: if reset_player {
            Map::empty()
        } else {
            level.player
        },
        enabled: if zip_datapacks {
            all_archived(level.enabled)
        } else {
            level.enabled
        },
        disabled: if zip_datapacks {
            all_archived(level.disabled)
        } else {
            level.disabled
        },
        ..level
    }
}

/// The strings of a list of string tags.
pub fn strings(items: &Vec<Tag>) -> (r: Option<Vec<String>>)
    ensures
        match r {
            Some(found) => strings_of(tag_views(items@)) == Some(string_views(found@)),
            None => strings_of(tag_views(items@)) is None,
        },
{
    let mut found: Vec<String> = Vec::new();
    let mut i: usize = 0;
    while i < items.len()
        invariant
            i <= items@.len(),
            found@.len() == i,
            forall|j: int|
                0 <= j < i ==> #[trigger] tag_views(items@)[j] == TagV::Str(found@[j]@),
        decreases items@.len() - i,
    {
        match &items[i] {
            Tag::Str(s) => {
                found.push(s.clone());
            },
            _ => {
                assert(!(tag_views(items@)[i as int] is Str));
                return None;
            },
        }
        i += 1;
    }
    assert forall|j: int| 0 <= j < items@.len() implies #[trigger] tag_views(items@)[j] is Str by {
        assert(tag_views(items@)[j] == TagV::Str(found@[j]@));
    }
    assert(strings_of(tag_views(items@))->0 =~= string_views(found@));
    Some(found)
}

/// The list of string tags that holds `items`.
pub fn strings_into_tags(items: Vec<String>) -> (r: Vec<Tag>)
    ensures
        tag_views(r@) == string_tags(string_views(items@)),
{
    let mut items = items;
    let ghost all = items@;
    let mut tags: Vec<Tag> = Vec::new();
    let mut i: usize = 0;
    let n: usize = items.len();
    while i < n
        invariant
            i <= n,
            n == all.len(),
            items@.len() == n,
            tags@.len() == i,
            forall|j: int| i <= j < n ==> items@[j] == all[j],
            forall|j: int| 0 <= j < i ==> tags@[j]@ == TagV::Str(all[j]@),
        decreases n - i,
    {
        let mut held: String = String::new();
        std::mem::swap(&mut held, &mut items[i]);
        tags.push(Tag::Str(held));
        i += 1;
    }
    assert(tag_views(tags@) =~= string_tags(string_views(all)));
    tags
}

/// The list named `key`, taken out of `entries`, as strings.
fn take_strings(entries: &mut Vec<Named>, key: &str) -> (r: Option<Vec<String>>)
    ensures
        match r {
            Some(found) => read_strings(named_map(old(entries)@), key@) == Some(
                string_views(found@),
            ),
            None => read_strings(named_map(old(entries)@), key@) is None,
        },
        named_map(final(entries)@) == without(named_map(old(entries)@), key@),
{
    match take(entries, key) {
        Some(Tag::List(items)) => {
            proof {
                lemma_list_view(items);
            }
            strings(&items)
        },
        _ => None,
    }
}

/// The reference `reference`, archived.
pub fn archive_reference(reference: &str) -> (r: String)
    ensures
        r@ == archived(reference@),
{
    if starts_with(reference, "file/") && !ends_with(reference, ".zip") {
        joined(reference, ".zip")
    } else {
        reference.to_owned()
    }
}

/// Archives every reference of `list`.
pub fn archive_references(list: &mut Vec<String>)
    ensures
        string_views(final(list)@) == all_archived(string_views(old(list)@)),
{
    let n: usize = list.len();
    let mut i: usize = 0;
    while i < n
        invariant
            i <= n,
            list@.len() == n,
            old(list)@.len() == n,
            forall|j: int| 0 <= j < i ==> list@[j]@ == archived(old(list)@[j]@),
            forall|j: int| i <= j < n ==> list@[j] == old(list)@[j],
        decreases n - i,
    {
        let renamed: String = archive_reference(list[i].as_str());
        list[i] = renamed;
        i += 1;
    }
    assert(string_views(list@) =~= all_archived(string_views(old(list)@)));
}

impl Level {
    /// The level that the document `tag` holds.
    pub fn from_tag(tag: Tag) -> (r: Result<Level, LevelField>)
        ensures
            match r {
                Ok(level) => read_level(tag@) == Ok::<LevelV, LevelField>(level@),
                Err(field) => read_level(tag@) == Err::<LevelV, LevelField>(field),
            },
    {
        let mut root: Vec<Named> = match tag {
            Tag::Compound(entries) => {
                proof {
                    lemma_compound_view(entries);
                }
                entries
            },
            _ => {
                return Err(LevelField::Root);
            },
        };
        let mut data: Vec<Named> = match take(&mut root, "Data") {
            Some(Tag::Compound(entries)) => {
                proof {
                    lemma_compound_view(entries);
                }
                entries
            },
            _ => {
                return Err(LevelField::Data);
            },
        };
        let name: String = match take(&mut data, "LevelName") {
            Some(Tag::Str(name)) => name,
            _ => {
                return Err(LevelField::LevelName);
            },
        };
        let player: Vec<Named> = match take(&mut data, "Player") {
            Some(Tag::Compound(entries)) => {
                proof {
                    lemma_compound_view(entries);
                }
                entries
            },
            _ => {
                return Err(LevelField::Player);
            },
        };
        let mut packs: Vec<Named> = match take(&mut data, "DataPacks") {
            Some(Tag::Compound(entries)) => {
                proof {
                    lemma_compound_view(entries);
                }
                entries
            },
            _ => {
                return Err(LevelField::DataPacks);
            },
        };
        let enabled: Vec<String> = match take_strings(&mut packs, "Enabled") {
            Some(list) => list,
            None => {
                return Err(LevelField::Enabled);
            },
        };
        let disabled: Vec<String> = match take_strings(&mut packs, "Disabled") {
            Some(list) => list,
            None => {
                return Err(LevelField::Disabled);
            },
        };
        Ok(
            Level {
                data: Data {
                    name,
                    player,
                    datapacks: DataPacks { enabled, disabled, other: packs },
                    other: data,
                },
                other: root,
            },
        )
    }

    /// The document of this level.
    pub fn into_tag(self) -> (r: Tag)
        ensures
            r@ == write_level(self@),
    {
        let ghost level = self@;
        let Level { data, other } = self;
        let Data { name, player, datapacks, other: data_other } = data;
        let DataPacks { enabled, disabled, other: packs_other } = datapacks;

        let enabled_tags: Vec<Tag> = strings_into_tags(enabled);
        let disabled_tags: Vec<Tag> = strings_into_tags(disabled);
        proof {
            lemma_list_view(enabled_tags);
            lemma_list_view(disabled_tags);
            lemma_compound_view(player);
        }
        let mut packs: Vec<Named> = packs_other;
        let first = Named { name: "Enabled".to_owned(), tag: Tag::List(enabled_tags) };
        proof {
            lemma_named_map_push(packs@, first);
        }
        packs.push(first);
        let second = Named { name: "Disabled".to_owned(), tag: Tag::List(disabled_tags) };
        proof {
            lemma_named_map_push(packs@, second);
        }
        packs.push(second);
        assert(named_map(packs@) == write_packs(level));
        proof {
            lemma_compound_view(packs);
        }

        let mut fields: Vec<Named> = data_other;
        let first = Named { name: "LevelName".to_owned(), tag: Tag::Str(name) };
        proof {
            lemma_named_map_push(fields@, first);
        }
        fields.push(first);
        let second = Named { name: "Player".to_owned(), tag: Tag::Compound(player) };
        proof {
            lemma_named_map_push(fields@, second);
        }
        fields.push(second);
        let third = Named { name: "DataPacks".to_owned(), tag: Tag::Compound(packs) };
        proof {
            lemma_named_map_push(fields@, third);
        }
        fields.push(third);
        assert(named_map(fields@) == write_data(level));
        proof {
            lemma_compound_view(fields);
        }

        let mut root: Vec<Named> = other;
        let first = Named { name: "Data".to_owned(), tag: Tag::Compound(fields) };
        proof {
            lemma_named_map_push(root@, first);
        }
        root.push(first);
        proof {
            lemma_compound_view(root);
        }
        Tag::Compound(root)
    }

    /// Applies the settings to this level: the display name, the reset of
    /// the player's data, and the archiving of the datapack references.
    pub fn package(&mut self, config: &Config)
        ensures
            final(self)@ == packaged(
                old(self)@,
                match config.name {
                    Some(name) => Some(name@),
                    None => None,
                },
                config.reset_player,
                config.zip_datapacks,
            ),
    {
        if let Some(name) = &config.name {
            self.data.name = name.clone();
        }
        if config.reset_player {
            self.data.player = Vec::new();
            assert(named_map(self.data.player@) =~= Map::<Seq<char>, TagV>::empty());
        }
        if config.zip_datapacks {
            self.walk_datapacks();
        }
    }

    /// Archives the references of both lists of datapacks.
    pub fn walk_datapacks(&mut self)
        ensures
            final(self)@ == (LevelV {
                enabled: all_archived(old(self)@.enabled),
                disabled: all_archived(old(self)@.disabled),
                ..old(self)@
            }),
    {
        self.walk_enabled_datapacks();
        self.walk_disabled_datapacks();
    }

    /// Archives the references of the disabled datapacks.
    pub fn walk_disabled_datapacks(&mut self)
        ensures
            final(self)@ == (LevelV {
                disabled: all_archived(old(self)@.disabled),
                ..old(self)@
            }),
    {
        archive_references(&mut self.data.datapacks.disabled);
    }

    /// Archives the references of the enabled datapacks.
    pub fn walk_enabled_datapacks(&mut self)
        ensures
            final(self)@ == (LevelV { enabled: all_archived(old(self)@.enabled), ..old(self)@ }),
    {
        archive_references(&mut self.data.datapacks.enabled);
    }
}

} // verus!
