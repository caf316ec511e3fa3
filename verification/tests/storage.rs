use mcwpack::entries::ExtraEntry;
use mcwpack::path::PackPath;
use mcwpack::storage::{
    copy_dir_recursive, create_zip_from_dir, target_of, DirStorage, ExtraFile, FileData,
    FilesystemStorage, InMemoryStorage, StorageError, ZipStorage,
};
use std::io::{Cursor, Read};

fn path(names: &[&str]) -> PackPath {
    let mut out = PackPath::new();
    for name in names {
        out = out.child(name);
    }
    out
}

fn world(names: &[&str]) -> PackPath {
    let mut out = PackPath::current();
    for name in names {
        out = out.child(name);
    }
    out
}

fn members(bytes: Vec<u8>) -> Vec<(String, Vec<u8>)> {
    let mut archive = zip::ZipArchive::new(Cursor::new(bytes)).unwrap();
    (0..archive.len())
        .map(|i| {
            let mut file = archive.by_index(i).unwrap();
            let mut contents = Vec::new();
            file.read_to_end(&mut contents).unwrap();
            (file.name().to_string(), contents)
        })
        .collect()
}

#[test]
fn archive_holds_what_was_written_in_order() {
    let mut storage = <ZipStorage as InMemoryStorage>::new(&[]);
    storage.write(&world(&["level.dat"]), b"level").unwrap();
    storage.write(&path(&["region", "r.0.0.mca"]), b"region bytes").unwrap();
    storage.write(&world(&["empty"]), b"").unwrap();
    let bytes = storage.finish().unwrap();
    assert_eq!(
        members(bytes),
        vec![
            ("level.dat".to_string(), b"level".to_vec()),
            ("region/r.0.0.mca".to_string(), b"region bytes".to_vec()),
            ("empty".to_string(), Vec::new()),
        ]
    );
}

#[test]
fn archive_without_members_is_a_valid_archive() {
    let mut storage = <ZipStorage as InMemoryStorage>::new(&[]);
    let bytes = storage.finish().unwrap();
    assert!(!bytes.is_empty());
    assert!(members(bytes).is_empty());
}

#[test]
fn archive_compresses_its_members() {
    let mut storage = <ZipStorage as InMemoryStorage>::new(&[]);
    let contents = vec![7u8; 100_000];
    storage.write(&path(&["big"]), &contents).unwrap();
    let bytes = storage.finish().unwrap();
    assert!(bytes.len() < 10_000);
    assert_eq!(members(bytes), vec![("big".to_string(), contents)]);
}

#[test]
fn archive_depends_on_its_members_alone() {
    let make = || {
        let mut storage = <ZipStorage as InMemoryStorage>::new(&[]);
        storage.write(&path(&["a"]), b"1").unwrap();
        storage.finish().unwrap()
    };
    assert_eq!(make(), make());
}

#[test]
fn finished_archive_takes_no_more_members() {
    let mut storage = <ZipStorage as InMemoryStorage>::new(&[]);
    storage.finish().unwrap();
    assert!(matches!(storage.write(&path(&["a"]), b"1"), Err(StorageError::Zip(_))));
    assert!(matches!(storage.finish(), Err(StorageError::Zip(_))));
}

#[test]
fn seeding_puts_each_extra_file_at_its_target() {
    let files = vec![
        ExtraFile {
            entry: ExtraEntry::Short(PackPath::root().child("home").child("README.md")),
            contents: b"read me".to_vec(),
        },
        ExtraFile {
            entry: ExtraEntry::Full(
                PackPath::root().child("home").child("notes.txt"),
                path(&["docs", "notes.txt"]),
            ),
            contents: b"notes".to_vec(),
        },
    ];
    let (mut storage, done) = ZipStorage::init(&files, None);
    assert_eq!(done, vec![true, true]);
    storage.write(&world(&["level.dat"]), b"level").unwrap();
    assert_eq!(
        members(storage.finish().unwrap()),
        vec![
            ("README.md".to_string(), b"read me".to_vec()),
            ("docs/notes.txt".to_string(), b"notes".to_vec()),
            ("level.dat".to_string(), b"level".to_vec()),
        ]
    );
}

#[test]
fn archive_with_a_directory_puts_what_is_written_under_it() {
    let files = vec![ExtraFile {
        entry: ExtraEntry::Short(PackPath::root().child("home").child("README.md")),
        contents: b"read me".to_vec(),
    }];
    let (mut storage, done) = ZipStorage::init(&files, Some(path(&["My World"])));
    assert_eq!(done, vec![true]);
    storage.write(&world(&["level.dat"]), b"level").unwrap();
    storage.write(&path(&["region", "r.0.0.mca"]), b"region").unwrap();
    assert_eq!(
        members(storage.finish().unwrap()),
        vec![
            ("My World/README.md".to_string(), b"read me".to_vec()),
            ("My World/level.dat".to_string(), b"level".to_vec()),
            ("My World/region/r.0.0.mca".to_string(), b"region".to_vec()),
        ]
    );
}

#[test]
fn member_without_bytes_is_an_empty_member() {
    let mut storage = <ZipStorage as InMemoryStorage>::new(&[]);
    storage.write(&path(&["a"]), b"").unwrap();
    storage.write(&path(&["b"]), b"").unwrap();
    assert_eq!(
        members(storage.finish().unwrap()),
        vec![("a".to_string(), Vec::new()), ("b".to_string(), Vec::new())]
    );
}

#[test]
fn seeding_without_files_gives_an_archive_that_is_ready() {
    let (mut storage, done) = ZipStorage::init(&vec![], Some(path(&["w"])));
    assert!(done.is_empty());
    storage.write(&path(&["x"]), b"1").unwrap();
    assert_eq!(members(storage.finish().unwrap()), vec![("w/x".to_string(), b"1".to_vec())]);
}

#[test]
fn target_of_an_extra_entry() {
    let short = ExtraEntry::Short(PackPath::root().child("a").child("b.txt"));
    assert_eq!(target_of(&short).to_text(), "b.txt");
    let none = ExtraEntry::Short(PackPath::root());
    assert_eq!(target_of(&none).to_text(), "");
    let full = ExtraEntry::Full(PackPath::root().child("a"), path(&["x", "y"]));
    assert_eq!(target_of(&full).to_text(), "x/y");
}

#[test]
fn zip_of_a_directory_names_members_by_their_place_below_it() {
    let dir = world(&["datapacks", "foo"]);
    let files = vec![
        FileData { path: world(&["datapacks", "foo", "pack.mcmeta"]), contents: b"{}".to_vec() },
        FileData {
            path: world(&["datapacks", "foo", "data", "ns", "f.mcfunction"]),
            contents: b"say hi".to_vec(),
        },
    ];
    let bytes = create_zip_from_dir(&dir, &files).unwrap();
    assert_eq!(
        members(bytes),
        vec![
            ("pack.mcmeta".to_string(), b"{}".to_vec()),
            ("data/ns/f.mcfunction".to_string(), b"say hi".to_vec()),
        ]
    );
}

#[test]
fn zip_of_a_directory_refuses_a_file_from_elsewhere() {
    let dir = world(&["datapacks", "foo"]);
    let files = vec![
        FileData { path: world(&["datapacks", "foo", "a"]), contents: vec![] },
        FileData { path: world(&["datapacks", "bar", "b"]), contents: vec![] },
    ];
    assert!(matches!(create_zip_from_dir(&dir, &files), Err(StorageError::Outside(1))));
}

#[test]
fn zip_of_an_empty_directory_has_no_members() {
    let bytes = create_zip_from_dir(&world(&["datapacks", "foo"]), &vec![]).unwrap();
    assert!(members(bytes).is_empty());
}

#[test]
fn copies_of_a_directory_keep_the_place_below_it() {
    let from = PackPath::root().child("src").child("pack");
    let to = path(&["out", "pack"]);
    let found = vec![
        PackPath::root().child("src").child("pack").child("a.txt"),
        PackPath::root().child("src").child("pack").child("sub").child("b.txt"),
    ];
    let list = copy_dir_recursive(&from, &to, &found).unwrap();
    let got: Vec<(String, String)> =
        list.iter().map(|c| (c.from.to_text(), c.to.to_text())).collect();
    assert_eq!(
        got,
        vec![
            ("/src/pack/a.txt".to_string(), "out/pack/a.txt".to_string()),
            ("/src/pack/sub/b.txt".to_string(), "out/pack/sub/b.txt".to_string()),
        ]
    );
    assert!(copy_dir_recursive(&from, &to, &vec![]).unwrap().is_empty());
}

#[test]
fn copies_of_a_directory_refuse_a_file_from_elsewhere() {
    let from = PackPath::root().child("src");
    let found = vec![PackPath::root().child("src").child("a"), PackPath::root().child("b")];
    assert!(matches!(
        copy_dir_recursive(&from, &path(&["out"]), &found),
        Err(StorageError::Outside(1))
    ));
}

#[test]
fn directory_sink_places_files_under_its_root() {
    let sink = <DirStorage as FilesystemStorage>::new(&PackPath::root().child("out"));
    assert_eq!(sink.path().to_text(), "/out");
    assert_eq!(sink.target(&path(&["region", "r.0.0.mca"])).to_text(), "/out/region/r.0.0.mca");
    assert_eq!(sink.target(&PackPath::root().child("abs")).to_text(), "/abs");
}
