use std::collections::HashMap;

use sendme::collection::{export_targets, materialize_outcome, persist_outcome, Collection, HashId};
use sendme::errors::ShareError;
use sendme::ingest::{
    assemble_collection, plan_entries, EntryKind, IngestScheduler, IngestedFile, ProtectionLedger,
    WalkEntry,
};
use sendme::paths::PathPart;

fn normal(s: &str) -> PathPart {
    PathPart::Normal(s.to_string())
}

fn walk(kind: EntryKind, parts: &[&str]) -> WalkEntry {
    WalkEntry { kind, parts: parts.iter().map(|p| normal(*p)).collect() }
}

#[test]
fn plan_selects_only_regular_files() {
    // a tree with two regular files, one directory node and one symlink
    let entries = vec![
        walk(EntryKind::Directory, &["album"]),
        walk(EntryKind::File, &["album", "a.txt"]),
        walk(EntryKind::Symlink, &["album", "link"]),
        walk(EntryKind::File, &["album", "sub", "b.txt"]),
    ];
    let plan = plan_entries(&entries).unwrap();
    assert_eq!(plan.len(), 2);
    assert_eq!(plan[0].name, "album/a.txt");
    assert_eq!(plan[0].source, 1);
    assert_eq!(plan[1].name, "album/sub/b.txt");
    assert_eq!(plan[1].source, 3);
}

#[test]
fn plan_of_single_file_has_its_own_name() {
    let entries = vec![walk(EntryKind::File, &["photo.jpg"])];
    let plan = plan_entries(&entries).unwrap();
    assert_eq!(plan.len(), 1);
    assert_eq!(plan[0].name, "photo.jpg");
}

#[test]
fn plan_fails_fast_on_invalid_file_name() {
    let entries = vec![
        walk(EntryKind::File, &["ok.txt"]),
        walk(EntryKind::File, &["bad/name"]),
    ];
    assert!(matches!(plan_entries(&entries), Err(ShareError::InvalidPath)));
}

#[test]
fn plan_ignores_invalid_names_on_skipped_nodes() {
    // an invalid component on a symlink does not matter: the node is skipped
    let entries = vec![
        walk(EntryKind::Symlink, &["bad/name"]),
        walk(EntryKind::File, &["ok.txt"]),
    ];
    let plan = plan_entries(&entries).unwrap();
    assert_eq!(plan.len(), 1);
    assert_eq!(plan[0].name, "ok.txt");
}

#[test]
fn single_file_import_totals_its_size() {
    let files = vec![IngestedFile {
        name: "photo.jpg".to_string(),
        hash: HashId::from_bytes(vec![7u8; 32]),
        size: 1024,
    }];
    let (total, c) = assemble_collection(&files);
    assert_eq!(total, 1024);
    assert_eq!(c.len(), 1);
    assert_eq!(c.name_at(0).as_str(), "photo.jpg");
    assert_eq!(c.hash_at(0).bytes(), &vec![7u8; 32]);
}

#[test]
fn collection_total_is_the_sum_of_sizes() {
    let files = vec![
        IngestedFile {
            name: "album/a.txt".to_string(),
            hash: HashId::from_bytes(vec![1u8; 32]),
            size: 3,
        },
        IngestedFile {
            name: "album/sub/b.txt".to_string(),
            hash: HashId::from_bytes(vec![2u8; 32]),
            size: 5,
        },
    ];
    let (total, c) = assemble_collection(&files);
    assert_eq!(total, 8);
    assert_eq!(c.len(), 2);
    assert_eq!(c.name_at(0).as_str(), "album/a.txt");
    assert_eq!(c.name_at(1).as_str(), "album/sub/b.txt");
}

#[test]
fn scheduler_never_exceeds_its_bound() {
    let mut s = IngestScheduler::new(2, 5);
    let mut max_seen: usize = 0;
    let mut launched: usize = 0;
    let mut completed: usize = 0;
    while completed < 5 {
        while s.can_launch() {
            s.launch();
            launched += 1;
            assert!(s.current_in_flight() <= s.concurrency_bound());
            if s.current_in_flight() > max_seen {
                max_seen = s.current_in_flight();
            }
        }
        s.complete(true);
        completed += 1;
    }
    assert!(s.settled());
    assert_eq!(launched, 5);
    assert_eq!(max_seen, 2);
    assert_eq!(s.outcome(), Ok(()));
}

#[test]
fn scheduler_stops_launching_after_a_failure() {
    let mut s = IngestScheduler::new(3, 10);
    s.launch();
    s.launch();
    s.complete(false);
    assert!(!s.can_launch());
    s.complete(true);
    assert!(s.settled());
    assert_eq!(s.outcome(), Err(ShareError::ImportFailure));
}

#[test]
fn ledger_releases_file_tokens_only_after_persist() {
    let mut ledger = ProtectionLedger::new();
    ledger.file_ingested();
    ledger.file_ingested();
    ledger.collection_persisted();
    ledger.release_file_tokens();
    ledger.release_collection_token();
}

#[test]
fn persist_outcome_maps_missing_root_to_persist_failure() {
    let ok = persist_outcome(Some(HashId::from_bytes(vec![9u8; 32])));
    assert_eq!(ok.unwrap().bytes(), &vec![9u8; 32]);
    let err = persist_outcome(None);
    assert!(matches!(err, Err(ShareError::PersistFailure)));
}

#[test]
fn materialize_outcome_maps_failure_to_export_failure() {
    assert_eq!(materialize_outcome(true), Ok(()));
    assert_eq!(materialize_outcome(false), Err(ShareError::ExportFailure));
}

#[test]
fn export_targets_validate_every_entry_name() {
    let mut c = Collection::new();
    c.push_entry("album/a.txt".to_string(), HashId::from_bytes(vec![1u8; 32]));
    c.push_entry("album/sub/b.txt".to_string(), HashId::from_bytes(vec![2u8; 32]));
    let targets = export_targets("/dest", &c).unwrap();
    assert_eq!(targets, vec!["/dest/album/a.txt", "/dest/album/sub/b.txt"]);

    let mut bad = Collection::new();
    bad.push_entry("album/../a.txt".to_string(), HashId::from_bytes(vec![1u8; 32]));
    assert_eq!(export_targets("/dest", &bad), Err(ShareError::InvalidPath));
}

#[test]
fn import_export_round_trip_reproduces_the_tree() {
    // the source tree, as (relative components, bytes) pairs
    let source: Vec<(Vec<&str>, Vec<u8>)> = vec![
        (vec!["album", "a.txt"], b"alpha".to_vec()),
        (vec!["album", "sub", "b.txt"], b"beta".to_vec()),
    ];

    // walk and plan
    let entries: Vec<WalkEntry> = source
        .iter()
        .map(|(parts, _)| walk(EntryKind::File, parts))
        .collect();
    let plan = plan_entries(&entries).unwrap();

    // ingest into a simulated content store keyed by a counting identity
    let mut store: HashMap<Vec<u8>, Vec<u8>> = HashMap::new();
    let mut files: Vec<IngestedFile> = Vec::new();
    for (i, p) in plan.iter().enumerate() {
        let bytes = source[p.source].1.clone();
        let id = vec![i as u8; 32];
        store.insert(id.clone(), bytes.clone());
        files.push(IngestedFile {
            name: p.name.clone(),
            hash: HashId::from_bytes(id),
            size: bytes.len() as u64,
        });
    }
    let (total, c) = assemble_collection(&files);
    assert_eq!(total, 9);

    // export into a simulated destination directory
    let targets = export_targets("/dest", &c).unwrap();
    let mut reconstructed: Vec<(String, Vec<u8>)> = Vec::new();
    for i in 0..targets.len() {
        let id = c.hash_at(i).bytes().clone();
        let bytes = store.get(&id).unwrap().clone();
        let name = targets[i].strip_prefix("/dest/").unwrap().to_string();
        reconstructed.push((name, bytes));
    }

    let expected: Vec<(String, Vec<u8>)> = source
        .iter()
        .map(|(parts, bytes)| (parts.join("/"), bytes.clone()))
        .collect();
    assert_eq!(reconstructed, expected);
}

#[test]
fn duplicate_entry_names_are_detected() {
    let mut c = Collection::new();
    c.push_entry("a.txt".to_string(), HashId::from_bytes(vec![1u8; 32]));
    c.push_entry("b.txt".to_string(), HashId::from_bytes(vec![2u8; 32]));
    assert!(!c.find_duplicate_name());
    c.push_entry("a.txt".to_string(), HashId::from_bytes(vec![3u8; 32]));
    assert!(c.find_duplicate_name());
}
