use ignore::overrides::Override;
use globset::GlobSet;
use mcwpack::config::{ignored_blocks, Config};
use mcwpack::entries::{
    DatapackEntry, Entry, EntryKind, ExtraEntry, FileEntry, Found, LevelEntry, ResourcepackEntry,
    ScoreboardEntry,
};
use mcwpack::packager::{Output, PackError, Packageable, Packager, Probe, Step, Visitor};
use mcwpack::path::{Component, PackPath};
use mcwpack::storage::{FileData, StorageError};
use std::io::{Cursor, Read};

fn config() -> Config {
    Config {
        name: None,
        dirname: None,
        extra_entries: vec![],
        resourcepack: None,
        reset_player: false,
        zip_datapacks: false,
        clean_chunks: false,
        ignored_blocks: ignored_blocks(),
        accepted_scores: GlobSet::empty(),
        accepted_objectives: GlobSet::empty(),
        accepted_entries: Override::empty(),
    }
}

fn world(names: &[&str]) -> PackPath {
    let mut out = PackPath::current();
    for name in names {
        out = out.child(name);
    }
    out
}

const FILE: Probe = Probe { is_file: true, len: 10 };
const DIR: Probe = Probe { is_file: false, len: 0 };

fn copy_target(step: Step) -> String {
    match step {
        Step::Copy(to) => to.to_text(),
        other => panic!("unexpected {:?}", other),
    }
}

fn tree_target(step: Step) -> String {
    match step {
        Step::CopyTree(to) => to.to_text(),
        other => panic!("unexpected {:?}", other),
    }
}

#[test]
fn file_is_copied_to_its_own_place() {
    let packager = Packager::new(config());
    let entry = FileEntry(world(&["icon.png"]));
    assert_eq!(copy_target(packager.visit(&entry, &FILE)), "icon.png");
    assert_eq!(copy_target(entry.package(&packager, &FILE)), "icon.png");
}

#[test]
fn dirname_puts_every_world_entry_under_it() {
    let packager =
        Packager::new(Config { dirname: Some(PackPath::new().child("My World")), ..config() });
    assert_eq!(
        copy_target(packager.visit(&FileEntry(world(&["data", "x.dat"])), &FILE)),
        "My World/data/x.dat"
    );
    assert_eq!(
        copy_target(packager.visit(&DatapackEntry(world(&["datapacks", "a.zip"])), &FILE)),
        "My World/datapacks/a.zip"
    );
    assert_eq!(
        copy_target(packager.visit(&ResourcepackEntry(PackPath::root().child("rp.zip")), &FILE)),
        "My World/resources.zip"
    );
    let mut winding = world(&["a"]);
    winding.parts.push(Component::ParentDir);
    assert_eq!(packager.place(&winding.child("b")).to_text(), "My World/b");
    assert_eq!(packager.resources_place().to_text(), "My World/resources.zip");
}

#[test]
fn datapack_file_is_copied_whatever_the_settings() {
    let entry = DatapackEntry(world(&["datapacks", "a.zip"]));
    for zip_datapacks in [false, true] {
        let packager = Packager::new(Config { zip_datapacks, ..config() });
        assert_eq!(copy_target(packager.visit(&entry, &FILE)), "datapacks/a.zip");
    }
}

#[test]
fn datapack_directory_is_copied_or_archived() {
    let entry = DatapackEntry(world(&["datapacks", "foo"]));
    let packager = Packager::new(config());
    assert_eq!(tree_target(packager.visit(&entry, &DIR)), "datapacks/foo");
    let packager = Packager::new(Config { zip_datapacks: true, ..config() });
    assert!(matches!(packager.visit(&entry, &DIR), Step::LoadTree));
}

#[test]
fn level_and_scoreboard_are_loaded() {
    let packager = Packager::new(config());
    assert!(matches!(packager.visit(&LevelEntry(world(&["level.dat"])), &FILE), Step::Load));
    assert!(matches!(
        packager.visit(&ScoreboardEntry(world(&["data", "scoreboard.dat"])), &FILE),
        Step::Load
    ));
}

#[test]
fn resourcepack_is_copied_or_archived_as_resources_zip() {
    let packager = Packager::new(config());
    let entry = ResourcepackEntry(PackPath::root().child("packs").child("mine"));
    assert_eq!(copy_target(packager.visit(&entry, &FILE)), "resources.zip");
    assert!(matches!(packager.visit(&entry, &DIR), Step::LoadTree));
}

#[test]
fn extra_entry_goes_to_its_target_under_the_dirname() {
    let packager = Packager::new(Config { dirname: Some(PackPath::new().child("w")), ..config() });
    let short = ExtraEntry::Short(PackPath::root().child("home").child("README.md"));
    assert_eq!(copy_target(packager.visit(&short, &FILE)), "w/README.md");
    assert_eq!(tree_target(packager.visit(&short, &DIR)), "w/README.md");
    let full = ExtraEntry::Full(
        PackPath::root().child("home").child("x"),
        PackPath::new().child("docs").child("x"),
    );
    assert_eq!(copy_target(packager.visit(&full, &FILE)), "w/docs/x");
    match packager.finish(&Entry::Extra(full), b"x".to_vec()).unwrap() {
        Output::Write(to, contents) => {
            assert_eq!(to.to_text(), "w/docs/x");
            assert_eq!(contents, b"x".to_vec());
        }
        Output::Skip => panic!("skipped"),
    }
}

#[test]
fn extra_entry_goes_to_its_bare_target_without_a_dirname() {
    let packager = Packager::new(config());
    let short = ExtraEntry::Short(PackPath::root().child("home").child("README.md"));
    assert_eq!(copy_target(packager.visit(&short, &FILE)), "README.md");
}

#[test]
fn entry_is_handled_by_the_handler_of_its_kind() {
    let packager = Packager::new(Config { zip_datapacks: true, ..config() });
    let step = |entry: Entry, probe: Probe| packager.visit(&entry, &probe);
    assert_eq!(copy_target(step(Entry::File(FileEntry(world(&["a"]))), FILE)), "a");
    assert!(matches!(
        step(Entry::Datapack(DatapackEntry(world(&["datapacks", "d"]))), DIR),
        Step::LoadTree
    ));
    assert!(matches!(step(Entry::Level(LevelEntry(world(&["level.dat"]))), FILE), Step::Load));
    assert!(matches!(
        step(Entry::Resourcepack(ResourcepackEntry(PackPath::root().child("r"))), DIR),
        Step::LoadTree
    ));
    assert_eq!(
        copy_target(step(Entry::Extra(ExtraEntry::Short(PackPath::root().child("e"))), FILE)),
        "e"
    );
    let entry = Entry::File(FileEntry(world(&["a"])));
    assert_eq!(copy_target(entry.package(&packager, &FILE)), "a");
}

#[test]
fn finish_writes_plain_files_as_they_are() {
    let packager = Packager::new(config());
    let bytes = b"any bytes".to_vec();
    let written = |entry: Entry| match packager.finish(&entry, b"any bytes".to_vec()).unwrap() {
        Output::Write(to, contents) => (to.to_text(), contents),
        Output::Skip => panic!("skipped"),
    };
    assert_eq!(
        written(Entry::File(FileEntry(world(&["a.txt"])))),
        ("a.txt".to_string(), bytes.clone())
    );
    assert_eq!(
        written(Entry::Datapack(DatapackEntry(world(&["datapacks", "p.zip"])))),
        ("datapacks/p.zip".to_string(), bytes.clone())
    );
    assert_eq!(
        written(Entry::Resourcepack(ResourcepackEntry(PackPath::root().child("rp.zip")))),
        ("resources.zip".to_string(), bytes.clone())
    );
    assert_eq!(
        written(Entry::Extra(ExtraEntry::Short(PackPath::root().child("x").child("e.txt")))),
        ("e.txt".to_string(), bytes.clone())
    );
}

fn members(bytes: Vec<u8>) -> Vec<(String, Vec<u8>)> {
    let mut archive = zip::ZipArchive::new(Cursor::new(bytes)).unwrap();
    (0..archive.len())
        .map(|i| {
            let mut file = archive.by_index(i).unwrap();
            let mut contents = Vec::new();
            file.read_to_end(&mut contents).unwrap();
            (file.name().to_string(), contents)
        })
        .collect()
}

#[test]
fn datapack_directory_is_archived_beside_its_name() {
    let packager = Packager::new(Config { zip_datapacks: true, ..config() });
    let entry = Entry::Datapack(DatapackEntry(world(&["datapacks", "foo"])));
    let files = vec![FileData {
        path: world(&["datapacks", "foo", "pack.mcmeta"]),
        contents: b"{}".to_vec(),
    }];
    match packager.finish_tree(&entry, &files).unwrap() {
        Output::Write(to, contents) => {
            assert_eq!(to.to_text(), "datapacks/foo.zip");
            assert_eq!(members(contents), vec![("pack.mcmeta".to_string(), b"{}".to_vec())]);
        }
        Output::Skip => panic!("skipped"),
    }
}

#[test]
fn datapack_directory_with_a_dot_in_its_name_keeps_the_name() {
    let packager = Packager::new(Config { zip_datapacks: true, ..config() });
    let entry = Entry::Datapack(DatapackEntry(world(&["datapacks", "foo.v2"])));
    let files = vec![FileData {
        path: world(&["datapacks", "foo.v2", "pack.mcmeta"]),
        contents: b"{}".to_vec(),
    }];
    match packager.finish_tree(&entry, &files).unwrap() {
        Output::Write(to, contents) => {
            assert_eq!(to.to_text(), "datapacks/foo.v2.zip");
            assert_eq!(members(contents), vec![("pack.mcmeta".to_string(), b"{}".to_vec())]);
        }
        Output::Skip => panic!("skipped"),
    }
    assert_eq!(mcwpack::level::archive_reference("file/foo.v2"), "file/foo.v2.zip");
}

#[test]
fn resourcepack_directory_is_archived_as_resources_zip() {
    let packager = Packager::new(Config { dirname: Some(PackPath::new().child("w")), ..config() });
    let source = PackPath::root().child("packs").child("mine");
    let entry = Entry::Resourcepack(ResourcepackEntry(source.duplicate()));
    let files = vec![FileData {
        path: source.duplicate().child("assets").child("a.png"),
        contents: b"png".to_vec(),
    }];
    match packager.finish_tree(&entry, &files).unwrap() {
        Output::Write(to, contents) => {
            assert_eq!(to.to_text(), "w/resources.zip");
            assert_eq!(members(contents), vec![("assets/a.png".to_string(), b"png".to_vec())]);
        }
        Output::Skip => panic!("skipped"),
    }
}

#[test]
fn finish_tree_refuses_entries_that_are_no_directories() {
    let packager = Packager::new(config());
    let r = packager.finish_tree(&Entry::File(FileEntry(world(&["a"]))), &vec![]);
    assert!(matches!(r, Err(PackError::NotATree(EntryKind::File))));
    let r = packager.finish_tree(&Entry::Level(LevelEntry(world(&["level.dat"]))), &vec![]);
    assert!(matches!(r, Err(PackError::NotATree(EntryKind::Level))));
}

#[test]
fn finish_tree_refuses_a_file_from_elsewhere() {
    let packager = Packager::new(config());
    let entry = Entry::Datapack(DatapackEntry(world(&["datapacks", "foo"])));
    let files = vec![FileData { path: world(&["region", "x"]), contents: vec![] }];
    let r = packager.finish_tree(&entry, &files);
    assert!(matches!(r, Err(PackError::Storage(StorageError::Outside(0)))));
}

#[test]
fn extra_entries_come_before_the_resourcepack() {
    let packager = Packager::new(Config {
        extra_entries: vec![
            ExtraEntry::Short(PackPath::root().child("a")),
            ExtraEntry::Full(PackPath::root().child("b"), PackPath::new().child("c")),
        ],
        resourcepack: Some(PackPath::root().child("rp")),
        ..config()
    });
    let entries = packager.extra_entries();
    let got: Vec<(EntryKind, String)> =
        entries.iter().map(|e| (e.kind(), e.path().to_text())).collect();
    assert_eq!(
        got,
        vec![
            (EntryKind::Extra, "/a".to_string()),
            (EntryKind::Extra, "/b".to_string()),
            (EntryKind::Resourcepack, "/rp".to_string()),
        ]
    );
    assert!(Packager::new(config()).extra_entries().is_empty());
}

#[test]
fn entries_of_a_run_are_those_of_the_world_and_those_added() {
    let packager = Packager::new(Config {
        extra_entries: vec![ExtraEntry::Short(PackPath::root().child("a"))],
        resourcepack: Some(PackPath::root().child("rp")),
        ..config()
    });
    let found = vec![
        Found { path: world(&["level.dat"]), is_file: true },
        Found { path: world(&["region"]), is_file: false },
    ];
    let got: Vec<(EntryKind, String)> =
        packager.entries(&found).iter().map(|e| (e.kind(), e.path().to_text())).collect();
    assert_eq!(
        got,
        vec![
            (EntryKind::Level, "./level.dat".to_string()),
            (EntryKind::Extra, "/a".to_string()),
            (EntryKind::Resourcepack, "/rp".to_string()),
        ]
    );
}

#[test]
fn world_entries_of_the_packager_classify_what_was_found() {
    let packager = Packager::new(config());
    let found = vec![
        Found { path: PackPath::current(), is_file: false },
        Found { path: world(&["region"]), is_file: false },
        Found { path: world(&["region", "r.0.0.mca"]), is_file: true },
        Found { path: world(&["datapacks", "d", "x"]), is_file: true },
        Found { path: world(&["datapacks", "d"]), is_file: false },
        Found { path: world(&["session.lock"]), is_file: true },
    ];
    let got: Vec<(EntryKind, String)> =
        packager.world_entries(&found).iter().map(|e| (e.kind(), e.path().to_text())).collect();
    assert_eq!(
        got,
        vec![
            (EntryKind::Region, "./region/r.0.0.mca".to_string()),
            (EntryKind::Datapack, "./datapacks/d".to_string()),
            (EntryKind::File, "./session.lock".to_string()),
        ]
    );
}
