use std::io::{Cursor, Read};

use microbin::archive::{build_archive, first_existing, get_archive, ArchiveError, ArchivePlan};
use microbin::pasta::{Pasta, PastaFile};

fn pasta(slug: &str) -> Pasta {
    Pasta {
        slug: slug.to_string(),
        content: String::new(),
        file: Some(PastaFile { name: "main.txt".into() }),
        attachments: Some(vec![PastaFile { name: "a.png".into() }, PastaFile { name: "b.pdf".into() }]),
        pasta_type: String::from("text"),
        private: false,
        readonly: false,
        editable: true,
        encrypt_server: false,
        encrypt_client: false,
        encrypted_key: None,
    }
}

fn plan(store: &Vec<Pasta>, slug: &str) -> (Vec<(String, Vec<String>)>, String) {
    match get_archive(store, slug, "/data") {
        ArchivePlan::Found { entries, content_disposition } => (
            entries.into_iter().map(|e| (e.name, e.candidates)).collect(),
            content_disposition,
        ),
        other => panic!("unexpected {:?}", other),
    }
}

#[test]
fn archive_plan_of_plain_pasta() {
    let store = vec![pasta("x-y")];
    let (entries, disposition) = plan(&store, "x-y");
    assert_eq!(
        entries,
        vec![
            ("main.txt".to_string(), vec!["/data/attachments/x-y/main.txt".to_string()]),
            ("a.png".to_string(), vec!["/data/attachments/x-y/a.png".to_string()]),
            ("b.pdf".to_string(), vec!["/data/attachments/x-y/b.pdf".to_string()]),
        ]
    );
    assert_eq!(disposition, "attachment; filename=\"x-y.zip\"");
}

#[test]
fn archive_plan_of_encrypted_pasta() {
    let mut p = pasta("k");
    p.encrypt_server = true;
    p.attachments = None;
    let store = vec![p];
    let (entries, _) = plan(&store, "k");
    assert_eq!(
        entries,
        vec![(
            "main.txt.enc".to_string(),
            vec!["/data/attachments/k/main.txt.enc".to_string(), "/data/attachments/k/data.enc".to_string()]
        )]
    );
}

#[test]
fn archive_plan_without_files_is_empty() {
    let mut p = pasta("e");
    p.file = None;
    p.attachments = None;
    let store = vec![p];
    assert!(plan(&store, "e").0.is_empty());
    assert!(matches!(get_archive(&store, "nope", "/data"), ArchivePlan::NotFound));
}

#[test]
fn archive_holds_the_files_stored() {
    let files = vec![
        ("one.txt".to_string(), b"first file".to_vec()),
        ("two.bin".to_string(), vec![0u8, 1, 2, 255]),
    ];
    let bytes = build_archive(&files).unwrap();
    let mut zip = zip::ZipArchive::new(Cursor::new(bytes.clone())).unwrap();
    assert_eq!(zip.len(), 2);
    for (i, (name, data)) in files.iter().enumerate() {
        let mut f = zip.by_index(i).unwrap();
        assert_eq!(f.name(), name);
        assert_eq!(f.compression(), zip::CompressionMethod::Stored);
        assert_eq!(f.unix_mode().map(|m| m & 0o777), Some(0o755));
        let mut read = Vec::new();
        f.read_to_end(&mut read).unwrap();
        assert_eq!(&read, data);
    }
    assert_eq!(build_archive(&files).unwrap(), bytes);
}

#[test]
fn archive_of_nothing_is_an_empty_zip() {
    let bytes = build_archive(&Vec::new()).unwrap();
    let zip = zip::ZipArchive::new(Cursor::new(bytes)).unwrap();
    assert_eq!(zip.len(), 0);
}

#[test]
fn archive_refuses_repeated_names() {
    let files = vec![
        ("same".to_string(), b"a".to_vec()),
        ("same".to_string(), b"b".to_vec()),
    ];
    assert_eq!(build_archive(&files), Err(ArchiveError::Zip));
}

#[test]
fn first_existing_path_is_taken() {
    assert_eq!(first_existing(&vec![false, true, true]), Some(1));
    assert_eq!(first_existing(&vec![true, false]), Some(0));
    assert_eq!(first_existing(&vec![false, false]), None);
    assert_eq!(first_existing(&vec![]), None);
}

#[test]
fn archive_keeps_empty_files() {
    let files = vec![("empty".to_string(), Vec::new())];
    let bytes = build_archive(&files).unwrap();
    let mut zip = zip::ZipArchive::new(Cursor::new(bytes)).unwrap();
    assert_eq!(zip.len(), 1);
    assert_eq!(zip.by_index(0).unwrap().size(), 0);
}
