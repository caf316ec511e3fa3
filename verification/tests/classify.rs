use mcwpack::entries::{
    world_entries, DataPackEntry, DatapackPackager, Entry, EntryKind, ExtraEntry, FilePackager,
    Found, LevelPackager, RegionPackager, ResourcePackEntry, ResourcepackPackager,
    ScoreboardPackager,
};
use mcwpack::path::PackPath;

fn world(names: &[&str]) -> PackPath {
    let mut path = PackPath::current();
    for name in names {
        path = path.child(name);
    }
    path
}

#[test]
fn datapack_directory_is_one_entry() {
    let entry = Entry::guess(&world(&["datapacks", "foo"]), false).unwrap();
    assert_eq!(entry.kind(), EntryKind::Datapack);
    assert_eq!(entry.path().to_text(), "./datapacks/foo");
}

#[test]
fn datapacks_directory_itself_is_no_entry() {
    assert!(Entry::guess(&world(&["datapacks"]), false).is_none());
}

#[test]
fn region_scoreboard_level_and_file() {
    let kind = |names: &[&str]| Entry::guess(&world(names), true).unwrap().kind();
    assert_eq!(kind(&["region", "r.0.0.mca"]), EntryKind::Region);
    assert_eq!(kind(&["data", "scoreboard.dat"]), EntryKind::Scoreboard);
    assert_eq!(kind(&["level.dat"]), EntryKind::Level);
    assert_eq!(kind(&["icon.png"]), EntryKind::File);
    assert_eq!(kind(&["datapacks", "pack.zip"]), EntryKind::Datapack);
}

#[test]
fn directories_are_not_classified() {
    assert!(Entry::guess(&world(&["region"]), false).is_none());
    assert!(Entry::guess(&world(&["r.0.0.mca"]), false).is_none());
}

#[test]
fn walk_absorbs_what_lies_inside_a_datapack() {
    let found = vec![
        Found { path: world(&["datapacks"]), is_file: false },
        Found { path: world(&["datapacks", "foo"]), is_file: false },
        Found { path: world(&["datapacks", "foo", "pack.mcmeta"]), is_file: true },
        Found { path: world(&["datapacks", "foo", "data", "x.mca"]), is_file: true },
        Found { path: world(&["level.dat"]), is_file: true },
    ];
    let entries = world_entries(&found);
    let got: Vec<(EntryKind, String)> =
        entries.iter().map(|e| (e.kind(), e.path().to_text())).collect();
    assert_eq!(
        got,
        vec![
            (EntryKind::Datapack, "./datapacks/foo".to_string()),
            (EntryKind::Level, "./level.dat".to_string()),
        ]
    );
}

#[test]
fn classification_is_repeatable() {
    let p = world(&["region", "r.1.-1.mca"]);
    let first = Entry::guess(&p, true).unwrap();
    let second = Entry::guess(&p, true).unwrap();
    assert_eq!(first.kind(), second.kind());
    assert!(first.path().same(second.path()));
}

#[test]
fn datapack_rule_comes_before_the_file_rules() {
    let inside = world(&["datapacks", "foo", "level.dat"]);
    assert_eq!(Entry::guess(&inside, true).unwrap().kind(), EntryKind::Datapack);
    assert!(Entry::is_absorbed(&inside));
    assert!(Entry::claim(&inside, true).is_none());
    assert!(!Entry::is_absorbed(&world(&["datapacks", "foo"])));
}

#[test]
fn datapacks_needs_the_leading_current_dir() {
    let mut p = PackPath::new();
    for name in ["datapacks", "foo", "bar"] {
        p = p.child(name);
    }
    assert!(Entry::guess(&p, false).is_none());
    assert_eq!(Entry::guess(&p, true).unwrap().kind(), EntryKind::File);
}

#[test]
fn scoreboard_named_region_file_is_a_region() {
    assert_eq!(
        Entry::guess(&world(&["scoreboard.dat.mca"]), true).unwrap().kind(),
        EntryKind::Region
    );
}

#[test]
fn packagers_answer_for_their_own_kind() {
    assert!(DatapackPackager.supports(&world(&["datapacks", "x"])));
    assert!(!DatapackPackager.supports(&world(&["datapacks"])));
    assert!(RegionPackager.supports(&world(&["poi", "r.0.0.mca"]), true));
    assert!(!RegionPackager.supports(&world(&["poi", "r.0.0.mca"]), false));
    assert!(ScoreboardPackager.supports(&world(&["data", "scoreboard.dat"]), true));
    assert!(!ScoreboardPackager.supports(&world(&["data", "scoreboard.dat_old"]), true));
    assert!(LevelPackager.supports(&world(&["level.dat"]), true));
    assert!(!LevelPackager.supports(&world(&["level.dat_old"]), true));
    assert!(FilePackager.supports(&world(&["anything"]), true));
    assert!(!FilePackager.supports(&world(&["anything"]), false));
}

#[test]
fn datapack_is_told_by_the_directory_it_lies_in() {
    let direct = world(&["datapacks", "foo"]);
    assert_eq!(DataPackEntry::try_create(&direct).unwrap().path.to_text(), "./datapacks/foo");
    assert!(DataPackEntry::try_create(&world(&["datapacks", "foo", "data"])).is_none());
    assert!(DataPackEntry::try_create(&world(&["datapacks"])).is_none());
    assert!(DataPackEntry::try_create(&world(&["region", "r.0.0.mca"])).is_none());
    assert!(DataPackEntry::try_create(&PackPath::new().child("foo")).is_none());
    assert!(DataPackEntry::try_create(&PackPath::new().child("datapacks").child("x")).is_some());
}

#[test]
fn resourcepack_entry_and_its_packager() {
    let entry = ResourcePackEntry::create(&PackPath::root().child("rp.zip"));
    assert_eq!(entry.path.to_text(), "/rp.zip");
    assert!(ResourcepackPackager.supports(true));
    assert!(!ResourcepackPackager.supports(false));
}

#[test]
fn extra_entry_takes_its_canonical_source() {
    let short = ExtraEntry::Short(world(&["readme.txt"]));
    let resolved = PackPath::root().child("home").child("readme.txt");
    match short.canonicalize(resolved.duplicate()) {
        ExtraEntry::Short(p) => assert_eq!(p.to_text(), "/home/readme.txt"),
        other => panic!("unexpected {:?}", other),
    }
    let full = ExtraEntry::Full(world(&["a"]), PackPath::new().child("docs").child("a"));
    match full.canonicalize(resolved) {
        ExtraEntry::Full(from, to) => {
            assert_eq!(from.to_text(), "/home/readme.txt");
            assert_eq!(to.to_text(), "docs/a");
        }
        other => panic!("unexpected {:?}", other),
    }
    assert_eq!(full.path().to_text(), "./a");
}
