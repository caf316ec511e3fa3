//! The scoreboard document, and the filter that packaging applies to its
//! player scores and its objectives.

use vstd::prelude::*;
use crate::config::{accepted_names, glob_count, glob_set_is_empty, glob_set_is_match, Config};
use crate::nbt::{
    lemma_compound_view, lemma_list_view, lemma_named_map_push, lookup, named_map, tag_views, take,
    without, Named, Tag, TagV,
};

verus! {

/// A player score or an objective: a compound with a name.
#[derive(Debug)]
pub struct Record {
    pub name: String,
    /// What else the compound holds.
    pub other: Vec<Named>,
}

/// What a [`Record`] stands for.
pub struct RecordV {
    pub name: Seq<char>,
    pub other: Map<Seq<char>, TagV>,
}

impl View for Record {
    type V = RecordV;

    open spec fn view(&self) -> RecordV {
        RecordV { name: self.name@, other: named_map(self.other@) }
    }
}

/// The data of a scoreboard.
#[derive(Debug)]
pub struct Data {
    pub scores: Vec<Record>,
    pub objectives: Vec<Record>,
    /// What else the compound holds.
    pub other: Vec<Named>,
}

/// The scoreboard document.
#[derive(Debug)]
pub struct Scoreboard {
    pub data: Data,
    /// What else the root holds.
    pub other: Vec<Named>,
}

/// What a [`Scoreboard`] stands for.
pub struct ScoreboardV {
    pub scores: Seq<RecordV>,
    pub objectives: Seq<RecordV>,
    pub data_other: Map<Seq<char>, TagV>,
    pub other: Map<Seq<char>, TagV>,
}

/// The records of `items`, each by its view.
pub open spec fn record_views(items: Seq<Record>) -> Seq<RecordV> {
    Seq::new(items.len(), |i: int| items[i]@)
}

impl View for Scoreboard {
    type V = ScoreboardV;

    open spec fn view(&self) -> ScoreboardV {
        ScoreboardV {
            scores: record_views(self.data.scores@),
            objectives: record_views(self.data.objectives@),
            data_other: named_map(self.data.other@),
            other: named_map(self.other@),
        }
    }
}

/// The parts of a scoreboard document, in the order in which they are
/// looked for. An error names the first part that is missing or of the
/// wrong kind.
#[derive(Debug, Clone, Copy, PartialEq, Eq, Structural)]
pub enum ScoreboardField {
    Root,
    Data,
    PlayerScores,
    Objectives,
}

/// The record that a tag holds: a compound with a string `Name`.
pub open spec fn read_record(tag: TagV) -> Option<RecordV> {
    match tag {
        TagV::Compound(entries) => match lookup(entries, "Name"@) {
            Some(TagV::Str(name)) => Some(RecordV { name, other: without(entries, "Name"@) }),
            _ => None,
        },
        _ => None,
    }
}

/// The records of a list of tags; none if one of the tags holds no record.
pub open spec fn read_records(items: Seq<TagV>) -> Option<Seq<RecordV>> {
    if forall|i: int| 0 <= i < items.len() ==> (#[trigger] read_record(items[i])) is Some {
        Some(Seq::new(items.len(), |i: int| read_record(items[i])->0))
    } else {
        None
    }
}

/// The records of the list named `key`.
pub open spec fn read_list(entries: Map<Seq<char>, TagV>, key: Seq<char>) -> Option<Seq<RecordV>> {
    match lookup(entries, key) {
        Some(TagV::List(items)) => read_records(items),
        _ => None,
    }
}

/// Reads the `data` compound; `other` is what the root holds beside it.
pub open spec fn read_data(data: Map<Seq<char>, TagV>, other: Map<Seq<char>, TagV>) -> Result<
    ScoreboardV,
    ScoreboardField,
> {
    match read_list(data, "PlayerScores"@) {
        Some(scores) => {
            let rest = without(data, "PlayerScores"@);
            match read_list(rest, "Objectives"@) {
                Some(objectives) => Ok(
                    ScoreboardV {
                        scores,
                        objectives,
                        data_other: without(rest, "Objectives"@),
                        other,
                    },
                ),
                None => Err(ScoreboardField::Objectives),
            }
        },
        None => Err(ScoreboardField::PlayerScores),
    }
}

/// The scoreboard that a document holds: a root compound with a compound
/// `data`, in it the lists `PlayerScores` and `Objectives` of compounds
/// that each have a string `Name`. Whatever else the compounds hold is
/// kept beside.
pub open spec fn read_scoreboard(doc: TagV) -> Result<ScoreboardV, ScoreboardField> {
    match doc {
        TagV::Compound(root) => match lookup(root, "data"@) {
            Some(TagV::Compound(data)) => read_data(data, without(root, "data"@)),
            _ => Err(ScoreboardField::Data),
        },
        _ => Err(ScoreboardField::Root),
    }
}

/// The compound of a record.
pub open spec fn write_record(record: RecordV) -> TagV {
    TagV::Compound(record.other.insert("Name"@, TagV::Str(record.name)))
}

/// The compounds of `records`.
pub open spec fn write_records(records: Seq<RecordV>) -> Seq<TagV> {
    Seq::new(records.len(), |i: int| write_record(records[i]))
}

/// The `data` compound of a scoreboard.
pub open spec fn write_data(board: ScoreboardV) -> Map<Seq<char>, TagV> {
    board.data_other.insert("PlayerScores"@, TagV::List(write_records(board.scores))).insert(
        "Objectives"@,
        TagV::List(write_records(board.objectives)),
    )
}

/// The document of a scoreboard: what each compound holds beside its
/// named parts, and the named parts.
pub open spec fn write_scoreboard(board: ScoreboardV) -> TagV {
    TagV::Compound(board.other.insert("data"@, TagV::Compound(write_data(board))))
}

/// What each record holds beside its name has no `Name`.
pub open spec fn records_well_formed(records: Seq<RecordV>) -> bool {
    forall|i: int| 0 <= i < records.len() ==> !(#[trigger] records[i]).other.contains_key("Name"@)
}

/// What a scoreboard holds beside its named parts has none of their
/// names.
pub open spec fn well_formed(board: ScoreboardV) -> bool {
    &&& !board.other.contains_key("data"@)
    &&& !board.data_other.contains_key("PlayerScores"@)
    &&& !board.data_other.contains_key("Objectives"@)
    &&& records_well_formed(board.scores)
    &&& records_well_formed(board.objectives)
}

/// A scoreboard that was read is well formed.
pub proof fn lemma_read_is_well_formed(doc: TagV)
    requires
        read_scoreboard(doc) is Ok,
    ensures
        well_formed(read_scoreboard(doc)->Ok_0),
{
    let board = read_scoreboard(doc)->Ok_0;
    let data = lookup(doc->Compound_0, "data"@)->0->Compound_0;
    let scores = lookup(data, "PlayerScores"@)->0->List_0;
    let objectives = lookup(without(data, "PlayerScores"@), "Objectives"@)->0->List_0;
    assert forall|i: int| 0 <= i < board.scores.len() implies !(#[trigger] board.scores[i])
        .other.contains_key("Name"@) by {
        assert(board.scores[i] == read_record(scores[i])->0);
    }
    assert forall|i: int| 0 <= i < board.objectives.len() implies !(
    #[trigger] board.objectives[i]).other.contains_key("Name"@) by {
        assert(board.objectives[i] == read_record(objectives[i])->0);
    }
}

/// Reading the compound of a record gives the record back.
pub proof fn lemma_record_round_trip(record: RecordV)
    requires
        !record.other.contains_key("Name"@),
    ensures
        read_record(write_record(record)) == Some(record),
{
    let entries = write_record(record)->Compound_0;
    assert(without(entries, "Name"@) =~= record.other);
}

/// Reading the compounds of some records gives the records back.
pub proof fn lemma_records_round_trip(records: Seq<RecordV>)
    requires
        records_well_formed(records),
    ensures
        read_records(write_records(records)) == Some(records),
{
    let tags = write_records(records);
    assert forall|i: int| 0 <= i < tags.len() implies (#[trigger] read_record(tags[i])) == Some(
        records[i],
    ) by {
        lemma_record_round_trip(records[i]);
    }
    assert(read_records(tags)->0 =~= records);
}

/// Reading the document of a scoreboard gives the scoreboard back.
pub proof fn lemma_scoreboard_round_trip(board: ScoreboardV)
    requires
        well_formed(board),
    ensures
        read_scoreboard(write_scoreboard(board)) == Ok::<ScoreboardV, ScoreboardField>(board),
{
    reveal_strlit("PlayerScores");
    reveal_strlit("Objectives");
    assert("PlayerScores"@[0] == 'P');
    assert("Objectives"@[0] == 'O');
    let root = write_scoreboard(board)->Compound_0;
    assert(without(root, "data"@) =~= board.other);
    let data = write_data(board);
    lemma_records_round_trip(board.scores);
    lemma_records_round_trip(board.objectives);
    let rest = without(data, "PlayerScores"@);
    assert(without(rest, "Objectives"@) =~= board.data_other);
}

/// The items of `items` whose mark is set, in their order.
pub open spec fn selected(items: Seq<RecordV>, marks: Seq<bool>) -> Seq<RecordV>
    decreases items.len(),
{
    if items.len() == 0 || marks.len() != items.len() {
        Seq::empty()
    } else {
        let rest = selected(items.drop_last(), marks.drop_last());
        if marks.last() {
            rest.push(items.last())
        } else {
            rest
        }
    }
}

/// For each record, whether its name is among `names`.
pub open spec fn matching(items: Seq<RecordV>, names: Set<Seq<char>>) -> Seq<bool> {
    Seq::new(items.len(), |i: int| names.contains(items[i].name))
}

/// The records that a glob set accepts: all of them where the set holds
/// no pattern, else those whose name one of the patterns matches.
pub open spec fn accepted(items: Seq<RecordV>, set: globset::GlobSet) -> Seq<RecordV> {
    if glob_count(set) == 0 {
        items
    } else {
        selected(items, matching(items, accepted_names(set)))
    }
}

/// The scoreboard after packaging: the player scores and the objectives
/// that their glob set accepts. All else stays.
pub open spec fn packaged(
    board: ScoreboardV,
    scores: globset::GlobSet,
    objectives: globset::GlobSet,
) -> ScoreboardV {
    ScoreboardV {
        scores: accepted(board.scores, scores),
        objectives: accepted(board.objectives, objectives),
        ..board
    }
}

/// The record that the tag `tag` holds.
pub fn record(tag: Tag) -> (r: Option<Record>)
    ensures
        match r {
            Some(found) => read_record(tag@) == Some(found@),
            None => read_record(tag@) is None,
        },
{
    match tag {
        Tag::Compound(entries) => {
            proof {
                lemma_compound_view(entries);
            }
            let mut entries = entries;
            match take(&mut entries, "Name") {
                Some(Tag::Str(name)) => Some(Record { name, other: entries }),
                _ => None,
            }
        },
        _ => None,
    }
}

/// The records of a list of tags.
pub fn records(list: Vec<Tag>) -> (r: Option<Vec<Record>>)
    ensures
        match r {
            Some(found) => read_records(tag_views(list@)) == Some(record_views(found@)),
            None => read_records(tag_views(list@)) is None,
        },
{
    let mut items = list;
    let ghost all = tag_views(list@);
    let n: usize = items.len();
    let mut found: Vec<Record> = Vec::new();
    let mut i: usize = 0;
    while i < n
        invariant
            i <= n,
            items@.len() == n,
            all == tag_views(list@),
            all.len() == n,
            found@.len() == i,
            forall|j: int| i <= j < n ==> #[trigger] items@[j]@ == all[j],
            forall|j: int| 0 <= j < i ==> (#[trigger] read_record(all[j])) == Some(found@[j]@),
        decreases n - i,
    {
        let mut held: Tag = Tag::List(Vec::new());
        std::mem::swap(&mut held, &mut items[i]);
        assert(held@ == all[i as int]);
        match record(held) {
            Some(r) => {
                found.push(r);
            },
            None => {
                assert(read_record(all[i as int]) is None);
                return None;
            },
        }
        i += 1;
    }
    assert(read_records(all)->0 =~= record_views(found@));
    Some(found)
}

/// The list named `key`, taken out of `entries`, as records.
fn take_records(entries: &mut Vec<Named>, key: &str) -> (r: Option<Vec<Record>>)
    ensures
        match r {
            Some(found) => read_list(named_map(old(entries)@), key@) == Some(
                record_views(found@),
            ),
            None => read_list(named_map(old(entries)@), key@) is None,
        },
        named_map(final(entries)@) == without(named_map(old(entries)@), key@),
{
    match take(entries, key) {
        Some(Tag::List(items)) => {
            proof {
                lemma_list_view(items);
            }
            records(items)
        },
        _ => None,
    }
}

/// The compound of the record `record`.
pub fn record_into_tag(record: Record) -> (r: Tag)
    ensures
        r@ == write_record(record@),
{
    let Record { name, other } = record;
    let mut entries: Vec<Named> = other;
    let first = Named { name: "Name".to_owned(), tag: Tag::Str(name) };
    proof {
        lemma_named_map_push(entries@, first);
    }
    entries.push(first);
    proof {
        lemma_compound_view(entries);
    }
    Tag::Compound(entries)
}

/// The compounds of the records `list`.
pub fn records_into_tags(list: Vec<Record>) -> (r: Vec<Tag>)
    ensures
        tag_views(r@) == write_records(record_views(list@)),
{
    let mut list = list;
    let ghost all = record_views(list@);
    let n: usize = list.len();
    let mut tags: Vec<Tag> = Vec::new();
    let mut i: usize = 0;
    while i < n
        invariant
            i <= n,
            list@.len() == n,
            all.len() == n,
            tags@.len() == i,
            forall|j: int| i <= j < n ==> #[trigger] list@[j]@ == all[j],
            forall|j: int| 0 <= j < i ==> #[trigger] tags@[j]@ == write_record(all[j]),
        decreases n - i,
    {
        let mut held: Record = Record { name: String::new(), other: Vec::new() };
        std::mem::swap(&mut held, &mut list[i]);
        assert(held@ == all[i as int]);
        tags.push(record_into_tag(held));
        i += 1;
    }
    assert(tag_views(tags@) =~= write_records(all));
    tags
}

/// The records of `list` whose mark in `marks` is set, in their order.
pub fn keep_marked(list: Vec<Record>, marks: &Vec<bool>) -> (r: Vec<Record>)
    requires
        marks@.len() == list@.len(),
    ensures
        record_views(r@) == selected(record_views(list@), marks@),
{
    let mut list = list;
    let ghost all = record_views(list@);
    let n: usize = list.len();
    let mut kept: Vec<Record> = Vec::new();
    let mut i: usize = 0;
    assert(all.subrange(0, 0) =~= Seq::<RecordV>::empty());
    assert(record_views(kept@) =~= Seq::<RecordV>::empty());
    while i < n
        invariant
            i <= n,
            list@.len() == n,
            marks@.len() == n,
            all.len() == n,
            forall|j: int| i <= j < n ==> #[trigger] list@[j]@ == all[j],
            record_views(kept@) == selected(
                all.subrange(0, i as int),
                marks@.subrange(0, i as int),
            ),
        decreases n - i,
    {
        let ghost before = record_views(kept@);
        assert(all.subrange(0, i + 1).drop_last() =~= all.subrange(0, i as int));
        assert(marks@.subrange(0, i + 1).drop_last() =~= marks@.subrange(0, i as int));
        if marks[i] {
            let mut held: Record = Record { name: String::new(), other: Vec::new() };
            std::mem::swap(&mut held, &mut list[i]);
            assert(held@ == all[i as int]);
            kept.push(held);
            assert(record_views(kept@) =~= before.push(all[i as int]));
        }
        i += 1;
    }
    assert(all.subrange(0, n as int) =~= all);
    assert(marks@.subrange(0, n as int) =~= marks@);
    kept
}

/// For each record of `list`, whether the set `set` matches its name.
pub fn marks(list: &Vec<Record>, set: &globset::GlobSet) -> (r: Vec<bool>)
    ensures
        r@ == matching(record_views(list@), accepted_names(*set)),
{
    let mut found: Vec<bool> = Vec::new();
    let mut i: usize = 0;
    while i < list.len()
        invariant
            i <= list@.len(),
            found@.len() == i,
            forall|j: int|
                0 <= j < i ==> found@[j] == accepted_names(*set).contains(
                    #[trigger] record_views(list@)[j].name,
                ),
        decreases list@.len() - i,
    {
        found.push(glob_set_is_match(set, list[i].name.as_str()));
        i += 1;
    }
    assert(found@ =~= matching(record_views(list@), accepted_names(*set)));
    found
}

/// The records of `list` that the set `set` accepts.
pub fn retain(list: Vec<Record>, set: &globset::GlobSet) -> (r: Vec<Record>)
    ensures
        record_views(r@) == accepted(record_views(list@), *set),
{
    if glob_set_is_empty(set) {
        list
    } else {
        let found: Vec<bool> = marks(&list, set);
        keep_marked(list, &found)
    }
}

impl Scoreboard {
    /// The scoreboard that the document `tag` holds.
    pub fn from_tag(tag: Tag) -> (r: Result<Scoreboard, ScoreboardField>)
        ensures
            match r {
                Ok(board) => read_scoreboard(tag@) == Ok::<ScoreboardV, ScoreboardField>(board@),
                Err(field) => read_scoreboard(tag@) == Err::<ScoreboardV, ScoreboardField>(field),
            },
    {
        let mut root: Vec<Named> = match tag {
            Tag::Compound(entries) => {
                proof {
                    lemma_compound_view(entries);
                }
                entries
            },
            _ => {
                return Err(ScoreboardField::Root);
            },
        };
        let mut data: Vec<Named> = match take(&mut root, "data") {
            Some(Tag::Compound(entries)) => {
                proof {
                    lemma_compound_view(entries);
                }
                entries
            },
            _ => {
                return Err(ScoreboardField::Data);
            },
        };
        let scores: Vec<Record> = match take_records(&mut data, "PlayerScores") {
            Some(list) => list,
            None => {
                return Err(ScoreboardField::PlayerScores);
            },
        };
        let objectives: Vec<Record> = match take_records(&mut data, "Objectives") {
            Some(list) => list,
            None => {
                return Err(ScoreboardField::Objectives);
            },
        };
        Ok(Scoreboard { data: Data { scores, objectives, other: data }, other: root })
    }

    /// The document of this scoreboard.
    pub fn into_tag(self) -> (r: Tag)
        ensures
            r@ == write_scoreboard(self@),
    {
        let ghost board = self@;
        let Scoreboard { data, other } = self;
        let Data { scores, objectives, other: data_other } = data;

        let score_tags: Vec<Tag> = records_into_tags(scores);
        let objective_tags: Vec<Tag> = records_into_tags(objectives);
        proof {
            lemma_list_view(score_tags);
            lemma_list_view(objective_tags);
        }
        let mut fields: Vec<Named> = data_other;
        let first = Named { name: "PlayerScores".to_owned(), tag: Tag::List(score_tags) };
        proof {
            lemma_named_map_push(fields@, first);
        }
        fields.push(first);
        let second = Named { name: "Objectives".to_owned(), tag: Tag::List(objective_tags) };
        proof {
            lemma_named_map_push(fields@, second);
        }
        fields.push(second);
        assert(named_map(fields@) == write_data(board));
        proof {
            lemma_compound_view(fields);
        }
        let mut root: Vec<Named> = other;
        let first = Named { name: "data".to_owned(), tag: Tag::Compound(fields) };
        proof {
            lemma_named_map_push(root@, first);
        }
        root.push(first);
        proof {
            lemma_compound_view(root);
        }
        Tag::Compound(root)
    }

    /// Applies the settings to this scoreboard: keeps the player scores
    /// and the objectives that the settings accept.
    pub fn package(&mut self, config: &Config)
        ensures
            final(self)@ == packaged(
                old(self)@,
                config.accepted_scores,
                config.accepted_objectives,
            ),
    {
        let mut scores: Vec<Record> = Vec::new();
        std::mem::swap(&mut scores, &mut self.data.scores);
        self.data.scores = retain(scores, &config.accepted_scores);
        let mut objectives: Vec<Record> = Vec::new();
        std::mem::swap(&mut objectives, &mut self.data.objectives);
        self.data.objectives = retain(objectives, &config.accepted_objectives);
    }
}

} // verus!
