use fastnbt::Value;
use ignore::overrides::Override;
use globset::GlobSet;
use mcwpack::chunk::{contains, Chunk, ChunkField};
use mcwpack::config::{ignored_blocks, Config};
use mcwpack::entries::{Entry, RegionEntry};
use mcwpack::nbt::{decode, get, Named, Tag};
use mcwpack::packager::{Output, PackError, Packager, Probe, Step, Visitor};
use mcwpack::path::PackPath;
use mcwpack::region::{
    build, check_readable, decode_chunks, encode_chunks, is_broken, optimize, prune, read_chunks,
    Located, Placed, RegionError, RegionFile, Stage,
};
use std::io::Cursor;

fn config() -> Config {
    Config {
        name: None,
        dirname: None,
        extra_entries: vec![],
        resourcepack: None,
        reset_player: false,
        zip_datapacks: false,
        clean_chunks: true,
        ignored_blocks: ignored_blocks(),
        accepted_scores: GlobSet::empty(),
        accepted_objectives: GlobSet::empty(),
        accepted_entries: Override::empty(),
    }
}

fn compound(entries: Vec<(&str, Value)>) -> Value {
    Value::Compound(entries.into_iter().map(|(k, v)| (k.to_string(), v)).collect())
}

fn section(blocks: &[&str]) -> Value {
    compound(vec![
        ("Y", Value::Byte(0)),
        (
            "block_states",
            compound(vec![(
                "palette",
                Value::List(
                    blocks
                        .iter()
                        .map(|b| compound(vec![("Name", Value::String(b.to_string()))]))
                        .collect(),
                ),
            )]),
        ),
    ])
}

fn chunk_value(status: &str, blocks: &[&str]) -> Value {
    compound(vec![
        ("Status", Value::String(status.to_string())),
        ("xPos", Value::Int(0)),
        ("sections", Value::List(vec![section(blocks)])),
    ])
}

fn chunk_bytes(status: &str, blocks: &[&str]) -> Vec<u8> {
    fastnbt::to_bytes(&chunk_value(status, blocks)).unwrap()
}

fn region_of(chunks: &[(usize, usize, Vec<u8>)]) -> Vec<u8> {
    let mut region = fastanvil::Region::create(Cursor::new(Vec::new())).unwrap();
    for (x, z, bytes) in chunks {
        region.write_chunk(*x, *z, bytes).unwrap();
    }
    region.into_inner().unwrap().into_inner()
}

fn chunks_of(region: Vec<u8>) -> Vec<(usize, usize, Value)> {
    let mut region = fastanvil::Region::from_stream(Cursor::new(region)).unwrap();
    region
        .iter()
        .map(|c| {
            let c = c.unwrap();
            (c.x, c.z, fastnbt::from_bytes(&c.data).unwrap())
        })
        .collect()
}

#[test]
fn one_full_chunk_with_a_block_is_kept_alone() {
    let region = region_of(&[(3, 5, chunk_bytes("full", &["minecraft:air", "minecraft:stone"]))]);
    let out = optimize(region, &config()).unwrap();
    assert!(out.len() > 8192);
    assert_eq!(
        chunks_of(out),
        vec![(3, 5, chunk_value("full", &["minecraft:air", "minecraft:stone"]))]
    );
}

#[test]
fn both_spellings_of_the_full_status_are_kept() {
    let region = region_of(&[
        (0, 0, chunk_bytes("full", &["minecraft:stone"])),
        (1, 0, chunk_bytes("minecraft:full", &["minecraft:stone"])),
    ]);
    let kept: Vec<(usize, usize)> =
        chunks_of(optimize(region, &config()).unwrap()).iter().map(|c| (c.0, c.1)).collect();
    assert_eq!(kept, vec![(0, 0), (1, 0)]);
}

#[test]
fn chunk_that_is_not_fully_generated_is_dropped() {
    let region = region_of(&[
        (0, 0, chunk_bytes("minecraft:features", &["minecraft:stone"])),
        (31, 31, chunk_bytes("full", &["minecraft:stone"])),
        (2, 1, chunk_bytes("empty", &["minecraft:stone"])),
    ]);
    let kept: Vec<(usize, usize)> =
        chunks_of(optimize(region, &config()).unwrap()).iter().map(|c| (c.0, c.1)).collect();
    assert_eq!(kept, vec![(31, 31)]);
}

#[test]
fn chunk_of_ignored_blocks_only_is_dropped() {
    let region = region_of(&[
        (4, 4, chunk_bytes("full", &["minecraft:air"])),
        (5, 4, chunk_bytes("full", &[])),
        (6, 4, chunk_bytes("full", &["minecraft:dirt"])),
    ]);
    let kept: Vec<(usize, usize)> =
        chunks_of(optimize(region, &config()).unwrap()).iter().map(|c| (c.0, c.1)).collect();
    assert_eq!(kept, vec![(6, 4)]);
}

#[test]
fn ignored_blocks_of_the_settings_decide() {
    let region = region_of(&[(6, 4, chunk_bytes("full", &["minecraft:dirt", "minecraft:air"]))]);
    let settings = Config {
        ignored_blocks: vec!["minecraft:air".to_string(), "minecraft:dirt".to_string()],
        ..config()
    };
    let out = optimize(region, &settings).unwrap();
    assert_eq!(out.len(), 8192);
    assert!(chunks_of(out).is_empty());
}

#[test]
fn chunks_come_out_in_the_order_of_their_slots() {
    let region = region_of(&[
        (7, 2, chunk_bytes("full", &["minecraft:stone"])),
        (1, 0, chunk_bytes("full", &["minecraft:stone"])),
        (0, 2, chunk_bytes("full", &["minecraft:stone"])),
    ]);
    let kept: Vec<(usize, usize)> =
        chunks_of(optimize(region, &config()).unwrap()).iter().map(|c| (c.0, c.1)).collect();
    assert_eq!(kept, vec![(1, 0), (0, 2), (7, 2)]);
}

#[test]
fn pruning_twice_keeps_the_same_chunks() {
    let region = region_of(&[
        (0, 0, chunk_bytes("full", &["minecraft:stone"])),
        (1, 0, chunk_bytes("full", &["minecraft:air"])),
        (2, 0, chunk_bytes("carved", &["minecraft:stone"])),
        (3, 0, chunk_bytes("minecraft:full", &["minecraft:water"])),
    ]);
    let once = optimize(region, &config()).unwrap();
    let twice = optimize(once.clone(), &config()).unwrap();
    assert_eq!(once.len(), twice.len());
    assert_eq!(chunks_of(once), chunks_of(twice));
}

#[test]
fn region_without_chunks_comes_out_as_its_header() {
    let out = optimize(vec![0; 4096], &config()).unwrap();
    assert_eq!(out, vec![0; 8192]);
}

#[test]
fn region_shorter_than_its_offset_table_is_truncated() {
    assert!(matches!(optimize(vec![0; 4095], &config()), Err(RegionError::Truncated)));
    assert!(matches!(optimize(vec![], &config()), Err(RegionError::Truncated)));
    assert!(matches!(RegionFile::load(vec![0; 10]), Err(RegionError::Truncated)));
}

fn raw_region(slot: usize, head: [u8; 5]) -> Vec<u8> {
    let mut bytes = vec![0u8; 8192 + 4096];
    bytes[4 * slot + 2] = 2;
    bytes[4 * slot + 3] = 1;
    bytes[8192..8197].copy_from_slice(&head);
    bytes
}

#[test]
fn chunk_of_announced_length_zero_is_broken() {
    let bytes = raw_region(33, [0, 0, 0, 0, 2]);
    assert!(is_broken(&bytes, 33));
    assert!(!is_broken(&bytes, 32));
    assert!(matches!(check_readable(&bytes), Err(RegionError::Broken(33))));
    assert!(matches!(optimize(bytes, &config()), Err(RegionError::Broken(33))));
}

#[test]
fn chunk_header_beyond_the_end_is_not_broken_but_unreadable() {
    let mut bytes = raw_region(0, [0, 0, 0, 0, 2]);
    bytes.truncate(8192 + 4);
    assert!(!is_broken(&bytes, 0));
    assert!(check_readable(&bytes).is_ok());
    assert!(matches!(optimize(bytes, &config()), Err(RegionError::Read(_))));
}

#[test]
fn chunk_of_unknown_compression_is_refused_by_the_container() {
    let bytes = raw_region(0, [0, 0, 0, 1, 77]);
    assert!(check_readable(&bytes).is_ok());
    assert!(matches!(optimize(bytes, &config()), Err(RegionError::Read(_))));
}

#[test]
fn chunk_that_is_no_document_is_reported_with_its_place() {
    let region = region_of(&[(9, 8, b"\x63 not a tag tree".to_vec())]);
    assert!(matches!(optimize(region, &config()), Err(RegionError::Document(9, 8, _))));
}

#[test]
fn chunk_of_the_wrong_shape_is_reported_with_its_place() {
    let bytes = fastnbt::to_bytes(&compound(vec![("sections", Value::Int(1))])).unwrap();
    let region = region_of(&[(2, 3, bytes)]);
    assert!(matches!(
        optimize(region, &config()),
        Err(RegionError::Shape(2, 3, ChunkField::Sections))
    ));
}

#[test]
fn stages_of_pruning_hand_chunks_on_at_their_places() {
    let region = region_of(&[
        (1, 1, chunk_bytes("full", &["minecraft:stone"])),
        (2, 1, chunk_bytes("full", &["minecraft:air"])),
    ]);
    let mut file = RegionFile::load(region).unwrap();
    let raw = read_chunks(&mut file.chunks).unwrap();
    assert_eq!(raw.iter().map(|c| (c.x, c.z)).collect::<Vec<_>>(), vec![(1, 1), (2, 1)]);
    let first: Value = fastnbt::from_bytes(&raw[0].data).unwrap();
    assert_eq!(first, chunk_value("full", &["minecraft:stone"]));
    let docs = decode_chunks(&raw).unwrap();
    assert_eq!(docs.iter().map(|c| (c.x, c.z)).collect::<Vec<_>>(), vec![(1, 1), (2, 1)]);
    let kept = prune(docs, &ignored_blocks());
    assert_eq!(kept.iter().map(|c| (c.x, c.z)).collect::<Vec<_>>(), vec![(1, 1)]);
    let packed = encode_chunks(kept).unwrap();
    assert_eq!(packed.iter().map(|c| (c.x, c.z)).collect::<Vec<_>>(), vec![(1, 1)]);
    let out = build(&packed).unwrap();
    assert_eq!(chunks_of(out), vec![(1, 1, chunk_value("full", &["minecraft:stone"]))]);
}

#[test]
fn read_chunks_agree_with_the_iterator_of_the_container() {
    let region = region_of(&[
        (5, 0, chunk_bytes("full", &["a"])),
        (0, 9, chunk_bytes("empty", &["b"])),
        (31, 31, chunk_bytes("full", &[])),
    ]);
    let mut file = RegionFile::load(region.clone()).unwrap();
    let ours: Vec<(usize, usize, Vec<u8>)> =
        read_chunks(&mut file.chunks).unwrap().into_iter().map(|c| (c.x, c.z, c.data)).collect();
    let mut theirs_of = fastanvil::Region::from_stream(Cursor::new(region)).unwrap();
    let theirs: Vec<(usize, usize, Vec<u8>)> = theirs_of
        .iter()
        .map(|c| {
            let c = c.unwrap();
            (c.x, c.z, c.data)
        })
        .collect();
    assert_eq!(ours, theirs);
    assert_eq!(ours.len(), 3);
}

#[test]
fn build_writes_each_chunk_at_its_place() {
    let out = build(&vec![
        Placed { x: 0, z: 0, data: chunk_bytes("full", &["a"]) },
        Placed { x: 31, z: 0, data: chunk_bytes("full", &["b"]) },
    ])
    .unwrap();
    assert!(out.len() > 8192);
    assert_eq!(out.len() % 4096, 0);
    assert_eq!(
        chunks_of(out),
        vec![(0, 0, chunk_value("full", &["a"])), (31, 0, chunk_value("full", &["b"]))]
    );
    assert_eq!(build(&vec![]).unwrap().len(), 8192);
}

#[test]
fn container_of_empty_chunks_only_comes_out_as_its_header() {
    let region = region_of(&[
        (0, 0, chunk_bytes("full", &["minecraft:air"])),
        (9, 9, chunk_bytes("empty", &["minecraft:stone"])),
    ]);
    assert_eq!(optimize(region, &config()).unwrap(), vec![0; 8192]);
}

#[test]
fn build_depends_on_the_chunks_alone() {
    let chunks = vec![
        Placed { x: 3, z: 4, data: chunk_bytes("full", &["a"]) },
        Placed { x: 4, z: 4, data: vec![0; 10_000] },
    ];
    assert_eq!(build(&chunks).unwrap(), build(&chunks).unwrap());
}

#[test]
fn build_refuses_a_place_outside_the_grid() {
    let r = build(&vec![Placed { x: 32, z: 0, data: chunk_bytes("full", &["a"]) }]);
    assert!(matches!(r, Err(RegionError::Write(_))));
}

fn named(name: &str, tag: Tag) -> Named {
    Named { name: name.to_string(), tag }
}

fn text(s: &str) -> Tag {
    Tag::Str(s.to_string())
}

fn chunk(root: Vec<Named>) -> Chunk {
    Chunk::new(Tag::Compound(root)).unwrap()
}

fn palette(blocks: &[&str]) -> Tag {
    Tag::List(vec![Tag::Compound(vec![named(
        "block_states",
        Tag::Compound(vec![named(
            "palette",
            Tag::List(blocks.iter().map(|b| Tag::Compound(vec![named("Name", text(b))])).collect()),
        )]),
    )])])
}

#[test]
fn chunk_without_anything_is_empty() {
    assert!(chunk(vec![]).is_chunk_empty(&ignored_blocks()));
    assert!(chunk(vec![named("Status", text("full"))]).is_chunk_empty(&ignored_blocks()));
}

#[test]
fn chunk_with_a_status_that_is_no_string_is_empty() {
    let c = chunk(vec![
        named("Status", Tag::Other(Value::Int(1))),
        named("sections", palette(&["minecraft:stone"])),
    ]);
    assert!(c.is_chunk_empty(&ignored_blocks()));
}

#[test]
fn chunk_with_entities_or_block_entities_or_poi_is_kept() {
    let one = || Tag::List(vec![Tag::Compound(vec![])]);
    assert!(!chunk(vec![named("block_entities", one())]).is_chunk_empty(&ignored_blocks()));
    assert!(!chunk(vec![named("Entities", one())]).is_chunk_empty(&ignored_blocks()));
    assert!(!chunk(vec![named("Sections", Tag::Compound(vec![named("0", text("x"))]))])
        .is_chunk_empty(&ignored_blocks()));
    assert!(chunk(vec![named("block_entities", Tag::List(vec![]))])
        .is_chunk_empty(&ignored_blocks()));
    assert!(chunk(vec![named("Entities", Tag::List(vec![]))]).is_chunk_empty(&ignored_blocks()));
    assert!(chunk(vec![named("Sections", Tag::Compound(vec![]))])
        .is_chunk_empty(&ignored_blocks()));
}

#[test]
fn status_decides_before_the_contents() {
    let one = || Tag::List(vec![Tag::Compound(vec![])]);
    let c = chunk(vec![
        named("block_entities", one()),
        named("Entities", one()),
        named("sections", palette(&["minecraft:stone"])),
        named("Status", text("minecraft:noise")),
    ]);
    assert!(c.is_chunk_empty(&ignored_blocks()));
    assert!(c.is_chunk_empty(&vec![]));
}

#[test]
fn chunk_with_a_block_that_is_not_ignored_is_kept() {
    let c = chunk(vec![named("sections", palette(&["minecraft:air", "minecraft:stone"]))]);
    assert!(!c.is_chunk_empty(&ignored_blocks()));
    assert!(c.is_chunk_empty(&vec!["minecraft:stone".to_string(), "minecraft:air".to_string()]));
    let air = chunk(vec![named("sections", palette(&["minecraft:air"]))]);
    assert!(air.is_chunk_empty(&ignored_blocks()));
    assert!(!air.is_chunk_empty(&vec![]));
}

#[test]
fn section_without_block_states_counts_for_nothing() {
    let c = chunk(vec![named("sections", Tag::List(vec![Tag::Compound(vec![])]))]);
    assert!(c.is_chunk_empty(&ignored_blocks()));
}

#[test]
fn chunk_new_names_the_part_of_the_wrong_shape() {
    let error = |root: Vec<Named>| Chunk::new(Tag::Compound(root)).unwrap_err();
    assert_eq!(Chunk::new(text("x")).unwrap_err(), ChunkField::Root);
    assert_eq!(error(vec![named("Sections", Tag::List(vec![]))]), ChunkField::Poi);
    assert_eq!(error(vec![named("Entities", text("x"))]), ChunkField::Entities);
    assert_eq!(error(vec![named("Entities", Tag::List(vec![text("x")]))]), ChunkField::Entities);
    assert_eq!(error(vec![named("sections", text("x"))]), ChunkField::Sections);
    assert_eq!(error(vec![named("sections", Tag::List(vec![text("x")]))]), ChunkField::Sections);
    assert_eq!(
        error(vec![named(
            "sections",
            Tag::List(vec![Tag::Compound(vec![named("block_states", Tag::Compound(vec![]))])])
        )]),
        ChunkField::Sections
    );
    assert_eq!(
        error(vec![named(
            "sections",
            Tag::List(vec![Tag::Compound(vec![named(
                "block_states",
                Tag::Compound(vec![named("palette", Tag::List(vec![Tag::Compound(vec![])]))])
            )])])
        )]),
        ChunkField::Sections
    );
    assert_eq!(error(vec![named("block_entities", text("x"))]), ChunkField::BlockEntities);
    assert_eq!(
        error(vec![named("Entities", text("x")), named("Sections", text("x"))]),
        ChunkField::Poi
    );
}

#[test]
fn chunk_into_tag_gives_the_document_back() {
    let root = vec![named("Status", text("full")), named("x", Tag::Other(Value::Int(1)))];
    let back = chunk(vec![named("Status", text("full")), named("x", Tag::Other(Value::Int(1)))])
        .into_tag();
    assert_eq!(back, Tag::Compound(root));
}

#[test]
fn get_and_contains_look_names_up() {
    let root = vec![named("a", text("1")), named("a", text("2")), named("b", text("3"))];
    assert_eq!(get(&root, "a"), Some(&text("2")));
    assert_eq!(get(&root, "b"), Some(&text("3")));
    assert_eq!(get(&root, "c"), None);
    assert!(contains(&ignored_blocks(), "minecraft:air"));
    assert!(!contains(&ignored_blocks(), "minecraft:stone"));
    assert!(!contains(&vec![], ""));
}

#[test]
fn ignored_blocks_default_to_air() {
    assert_eq!(ignored_blocks(), vec!["minecraft:air".to_string()]);
}

fn region_entry() -> RegionEntry {
    RegionEntry(PackPath::current().child("region").child("r.0.0.mca"))
}

#[test]
fn region_of_header_size_is_skipped() {
    let packager = Packager::new(config());
    let entry = Entry::Region(region_entry());
    assert!(matches!(packager.finish(&entry, vec![0; 8192]), Ok(Output::Skip)));
    assert!(matches!(packager.finish(&entry, vec![0; 100]), Ok(Output::Skip)));
    let probe = Probe { is_file: true, len: 8192 };
    assert!(matches!(packager.visit(&region_entry(), &probe), Step::Skip));
    let probe = Probe { is_file: true, len: 8193 };
    assert!(matches!(packager.visit(&region_entry(), &probe), Step::Load));
}

#[test]
fn region_whose_chunks_are_all_empty_is_skipped() {
    let region = region_of(&[
        (0, 0, chunk_bytes("full", &["minecraft:air"])),
        (1, 0, chunk_bytes("empty", &["minecraft:stone"])),
    ]);
    assert!(region.len() > 8192);
    let out = Packager::new(config()).finish(&Entry::Region(region_entry()), region);
    assert!(matches!(out, Ok(Output::Skip)));
}

#[test]
fn region_with_a_chunk_to_keep_is_written_pruned() {
    let region = region_of(&[
        (0, 0, chunk_bytes("full", &["minecraft:air"])),
        (1, 0, chunk_bytes("full", &["minecraft:stone"])),
    ]);
    let settings = Config { dirname: Some(PackPath::new().child("w")), ..config() };
    match Packager::new(settings).finish(&Entry::Region(region_entry()), region).unwrap() {
        Output::Write(to, bytes) => {
            assert_eq!(to.to_text(), "w/region/r.0.0.mca");
            assert!(bytes.len() > 8192);
            assert_eq!(chunks_of(bytes), vec![(1, 0, chunk_value("full", &["minecraft:stone"]))]);
        }
        Output::Skip => panic!("the region was skipped"),
    }
}

#[test]
fn region_is_copied_where_chunks_are_not_cleaned() {
    let region = region_of(&[(0, 0, chunk_bytes("empty", &[]))]);
    let settings = Config { clean_chunks: false, ..config() };
    let packager = Packager::new(settings);
    match packager.finish(&Entry::Region(region_entry()), region.clone()).unwrap() {
        Output::Write(to, bytes) => {
            assert_eq!(to.to_text(), "region/r.0.0.mca");
            assert_eq!(bytes, region);
        }
        Output::Skip => panic!("the region was skipped"),
    }
    let probe = Probe { is_file: true, len: region.len() as u64 };
    match packager.visit(&region_entry(), &probe) {
        Step::Copy(to) => assert_eq!(to.to_text(), "region/r.0.0.mca"),
        other => panic!("unexpected {:?}", other),
    }
}

#[test]
fn region_that_cannot_be_read_fails_the_entry() {
    let bytes = raw_region(0, [0, 0, 0, 0, 2]);
    let out = Packager::new(config()).finish(&Entry::Region(region_entry()), bytes);
    assert!(matches!(out, Err(PackError::Region(RegionError::Broken(0)))));
}

#[test]
fn survivors_do_not_depend_on_the_order_of_tags() {
    let forward = Tag::Compound(vec![
        named("Status", text("full")),
        named("block_entities", Tag::List(vec![Tag::Compound(vec![])])),
    ]);
    let backward = Tag::Compound(vec![
        named("block_entities", Tag::List(vec![Tag::Compound(vec![])])),
        named("Status", text("full")),
    ]);
    assert!(!Chunk::new(forward).unwrap().is_chunk_empty(&ignored_blocks()));
    assert!(!Chunk::new(backward).unwrap().is_chunk_empty(&ignored_blocks()));
}

#[test]
fn later_status_of_a_chunk_counts() {
    let c = chunk(vec![
        named("Status", text("empty")),
        named("Entities", Tag::List(vec![Tag::Compound(vec![])])),
        named("Status", text("full")),
    ]);
    assert!(!c.is_chunk_empty(&ignored_blocks()));
}

#[test]
fn failures_are_told_by_their_stage() {
    let stage = |bytes: Vec<u8>| optimize(bytes, &config()).unwrap_err().stage();
    assert_eq!(stage(vec![]), Stage::Read);
    assert_eq!(stage(vec![0; 4095]), Stage::Read);
    assert_eq!(stage(raw_region(0, [0, 0, 0, 0, 2])), Stage::Process);
    assert_eq!(stage(raw_region(0, [0, 0, 0, 1, 77])), Stage::Process);
    assert_eq!(stage(region_of(&[(0, 0, b"\x63".to_vec())])), Stage::Process);
    let shape = fastnbt::to_bytes(&compound(vec![("Entities", Value::Int(1))])).unwrap();
    assert_eq!(stage(region_of(&[(0, 0, shape)])), Stage::Process);
    assert_eq!(Stage::Read.describe(), "could not read region");
    assert_eq!(Stage::Process.describe(), "could not process region");
}

#[test]
fn located_chunks_keep_their_documents_through_pruning() {
    let doc = decode(&chunk_bytes("full", &["minecraft:stone"])).unwrap();
    let kept = prune(
        vec![
            Located { x: 1, z: 2, chunk: Chunk::new(doc).unwrap() },
            Located { x: 3, z: 4, chunk: chunk(vec![]) },
        ],
        &ignored_blocks(),
    );
    assert_eq!(kept.len(), 1);
    assert_eq!((kept[0].x, kept[0].z), (1, 2));
    assert!(get(&kept[0].chunk.root, "Status").is_some());
}
