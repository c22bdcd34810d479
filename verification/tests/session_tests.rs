use sendme::collection::HashId;
use sendme::errors::ShareError;
use sendme::session::{
    fresh_work_dir_name, work_dir_name, AcceptAction, ContentKind, MintStep, ProviderSession,
    SessionPhase, TicketMinter,
};

#[test]
fn work_dir_name_is_parent_prefix_and_hex_suffix() {
    let suffix: Vec<u8> = (0u8..16).collect();
    let name = work_dir_name("/data", &suffix);
    assert_eq!(name, "/data/.sendme-provide-000102030405060708090a0b0c0d0e0f");
}

#[test]
fn fresh_work_dir_name_has_the_documented_shape() {
    let name = fresh_work_dir_name("/data");
    assert!(name.starts_with("/data/.sendme-provide-"));
    assert_eq!(name.len(), "/data".len() + 17 + 32);
    let digits = &name["/data/.sendme-provide-".len()..];
    assert!(digits.chars().all(|c| c.is_ascii_hexdigit()));
}

#[test]
fn colliding_work_dir_fails_second_session_and_spares_first() {
    let suffix = vec![0xaau8; 16];
    let mut first = ProviderSession::new("/data".to_string());
    let dir = first.propose_work_dir(&suffix);
    assert_eq!(first.allocate(dir.clone(), false), Ok(()));

    // a second session proposes the same name while the first still runs
    let mut second = ProviderSession::new("/data".to_string());
    let dir2 = second.propose_work_dir(&suffix);
    assert_eq!(dir, dir2);
    assert_eq!(second.allocate(dir2, true), Err(ShareError::CollisionError));

    // the collision is recoverable: a fresh suffix works
    let retry = second.propose_work_dir(&vec![0xbbu8; 16]);
    assert_eq!(second.allocate(retry, false), Ok(()));

    // the first session goes on unaffected
    assert_eq!(first.begin_import(true), Ok(()));
}

#[test]
fn session_walks_through_its_phases() {
    let mut s = ProviderSession::new("/data".to_string());
    let dir = s.propose_work_dir(&vec![1u8; 16]);
    s.allocate(dir.clone(), false).unwrap();
    s.begin_import(true).unwrap();
    s.finish_import(HashId::from_bytes(vec![5u8; 32]));
    assert!(s.root().is_some());
    s.begin_serving();
    assert_eq!(s.on_accept(true), AcceptAction::HandleConnection);
    s.on_connection_result(false);
    assert_eq!(s.on_accept(true), AcceptAction::HandleConnection);
    assert_eq!(s.on_accept(false), AcceptAction::StopAccepting);
    let removed = s.close();
    assert_eq!(removed, dir);
}

#[test]
fn missing_source_fails_with_not_found() {
    let mut s = ProviderSession::new("/data".to_string());
    let dir = s.propose_work_dir(&vec![2u8; 16]);
    s.allocate(dir, false).unwrap();
    assert_eq!(s.begin_import(false), Err(ShareError::NotFound));
}

#[test]
fn failed_import_closes_the_session() {
    let mut s = ProviderSession::new("/data".to_string());
    let dir = s.propose_work_dir(&vec![3u8; 16]);
    s.allocate(dir, false).unwrap();
    s.begin_import(true).unwrap();
    s.fail_import();
}

#[test]
fn minting_suspends_until_the_address_resolves() {
    let root = HashId::from_bytes(vec![9u8; 32]);
    let minter = TicketMinter::new_default();
    match minter.step(&root, None) {
        MintStep::Suspend { wait_ms } => assert_eq!(wait_ms, 100),
        MintStep::Minted(_) => panic!("minted without an address"),
    }
    match minter.step(&root, Some("node-addr-1".to_string())) {
        MintStep::Suspend { .. } => panic!("address was resolved"),
        MintStep::Minted(t) => {
            assert_eq!(t.addr, "node-addr-1");
            assert_eq!(t.root.bytes(), &vec![9u8; 32]);
            assert_eq!(t.kind, ContentKind::Collection);
        }
    }
}

#[test]
fn minter_backoff_is_configurable() {
    let root = HashId::from_bytes(vec![1u8; 32]);
    let minter = TicketMinter::new(250);
    match minter.step(&root, None) {
        MintStep::Suspend { wait_ms } => assert_eq!(wait_ms, 250),
        MintStep::Minted(_) => panic!("minted without an address"),
    }
}

#[test]
fn error_descriptions_name_the_condition() {
    assert_eq!(ShareError::InvalidPath.describe(), "invalid path component");
    assert_eq!(ShareError::CollisionError.describe(), "working directory already exists");
}

#[test]
fn session_phase_order_is_observable() {
    // the phases form one forward path; equality on them is plain
    assert_ne!(SessionPhase::Created, SessionPhase::Closed);
    assert_eq!(SessionPhase::Serving, SessionPhase::Serving);
}
