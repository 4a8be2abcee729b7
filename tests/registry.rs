use peep::{ProbeOutcome, RendezvousError, SessionMemberLocation, SessionRegistry};

fn loc(addr: u128, port: u16) -> SessionMemberLocation {
    SessionMemberLocation { addr, port }
}

fn new_session(reg: &mut SessionRegistry) -> String {
    reg.create_session().expect("a fresh session")
}

#[test]
fn test_all() {
    let mut reg = SessionRegistry::new();

    let mem1 = loc(1, 0);

    let session_id = new_session(&mut reg);

    assert_eq!(0, reg.get_members(&session_id).unwrap().len());

    reg.admit_member(&session_id, mem1, ProbeOutcome::Connected).unwrap();

    assert!(reg.get_members(&session_id).unwrap().contains(&mem1));

    reg.admit_member(&session_id, mem1, ProbeOutcome::Connected).unwrap();

    assert_eq!(1, reg.get_members(&session_id).unwrap().len());

    let mem2 = loc(2, 0);

    reg.admit_member(&session_id, mem2, ProbeOutcome::Connected).unwrap();

    let session = reg.get_members(&session_id).unwrap();

    assert!(session.contains(&mem1));
    assert!(session.contains(&mem2));
    assert_eq!(2, session.len());
}

#[test]
fn end_to_end_scenario() {
    let mut reg = SessionRegistry::new();
    let id = new_session(&mut reg);
    assert!(reg.get_members(&id).unwrap().is_empty());

    let first = loc(1, 40001);
    assert_eq!(reg.admit_member(&id, first, ProbeOutcome::Connected), Ok(0));
    assert_eq!(reg.get_members(&id).unwrap(), vec![first]);

    assert_eq!(reg.admit_member(&id, first, ProbeOutcome::Connected), Ok(0));
    assert_eq!(reg.get_members(&id).unwrap().len(), 1);

    let second = loc(2, 40002);
    assert_eq!(reg.admit_member(&id, second, ProbeOutcome::Connected), Ok(1));
    assert_eq!(reg.get_members(&id).unwrap(), vec![first, second]);

    let silent = loc(3, 40003);
    assert_eq!(
        reg.admit_member(&id, silent, ProbeOutcome::Refused),
        Err(RendezvousError::UnreachableCandidate)
    );
    assert_eq!(RendezvousError::UnreachableCandidate.status_code(), 409);
    assert_eq!(reg.get_members(&id).unwrap(), vec![first, second]);
}

#[test]
fn two_new_candidates_get_distinct_ids() {
    let mut reg = SessionRegistry::new();
    let id = new_session(&mut reg);
    let a = loc(0x20010db8_0000_0000_0000_0000_0000_0001, 5000);
    let b = loc(0x20010db8_0000_0000_0000_0000_0000_0002, 5000);
    let ia = reg.admit_member(&id, a, ProbeOutcome::Connected).unwrap();
    let ib = reg.admit_member(&id, b, ProbeOutcome::Connected).unwrap();
    assert_ne!(ia, ib);
    let members = reg.get_members(&id).unwrap();
    assert!(members.contains(&a));
    assert!(members.contains(&b));
    assert_eq!(members.len(), 2);
}

#[test]
fn same_address_other_port_is_another_member() {
    let mut reg = SessionRegistry::new();
    let id = new_session(&mut reg);
    assert_eq!(reg.admit_member(&id, loc(1, 10), ProbeOutcome::Connected), Ok(0));
    assert_eq!(reg.admit_member(&id, loc(1, 11), ProbeOutcome::Connected), Ok(1));
    assert_eq!(reg.admit_member(&id, loc(1, 10), ProbeOutcome::Connected), Ok(0));
    assert_eq!(reg.get_members(&id).unwrap(), vec![loc(1, 10), loc(1, 11)]);
}

#[test]
fn idempotent_admission_keeps_id_and_members() {
    let mut reg = SessionRegistry::new();
    let id = new_session(&mut reg);
    reg.admit_member(&id, loc(9, 9), ProbeOutcome::Connected).unwrap();
    let c = loc(7, 7);
    let first = reg.admit_member(&id, c, ProbeOutcome::Connected).unwrap();
    let after_first = reg.get_members(&id).unwrap();
    let second = reg.admit_member(&id, c, ProbeOutcome::Connected).unwrap();
    assert_eq!(first, 1);
    assert_eq!(first, second);
    assert_eq!(after_first, reg.get_members(&id).unwrap());
}

#[test]
fn admission_leaves_other_sessions_alone() {
    let mut reg = SessionRegistry::new();
    let a = new_session(&mut reg);
    let b = new_session(&mut reg);
    assert_ne!(a, b);
    reg.admit_member(&b, loc(5, 1), ProbeOutcome::Connected).unwrap();
    let before = reg.get_members(&b).unwrap();
    reg.admit_member(&a, loc(6, 1), ProbeOutcome::Connected).unwrap();
    reg.admit_member(&a, loc(6, 2), ProbeOutcome::Connected).unwrap();
    assert_eq!(reg.get_members(&b).unwrap(), before);
    assert_eq!(reg.get_members(&a).unwrap(), vec![loc(6, 1), loc(6, 2)]);
}

#[test]
fn failed_probe_changes_nothing() {
    let mut reg = SessionRegistry::new();
    let id = new_session(&mut reg);
    reg.admit_member(&id, loc(1, 1), ProbeOutcome::Connected).unwrap();
    assert_eq!(
        reg.admit_member(&id, loc(2, 2), ProbeOutcome::TimedOut),
        Err(RendezvousError::UnreachableCandidate)
    );
    assert_eq!(
        reg.admit_member(&id, loc(2, 2), ProbeOutcome::Refused),
        Err(RendezvousError::UnreachableCandidate)
    );
    assert_eq!(
        reg.admit_member(&id, loc(2, 2), ProbeOutcome::ShutdownFailed),
        Err(RendezvousError::Internal)
    );
    assert_eq!(reg.get_members(&id).unwrap(), vec![loc(1, 1)]);
}

#[test]
fn read_after_admission_lists_member() {
    let mut reg = SessionRegistry::new();
    let id = new_session(&mut reg);
    for port in 1..5u16 {
        let c = loc(0xfe80, port);
        reg.admit_member(&id, c, ProbeOutcome::Connected).unwrap();
        assert!(reg.get_members(&id).unwrap().contains(&c));
    }
}

#[test]
fn unknown_session_is_reported() {
    let mut reg = SessionRegistry::new();
    let id = new_session(&mut reg);
    assert!(reg.contains_session(&id));
    assert!(!reg.contains_session("no-such-session"));
    assert_eq!(reg.get_members("no-such-session"), Err(RendezvousError::SessionNotFound));
    assert_eq!(
        reg.admit_member("no-such-session", loc(1, 1), ProbeOutcome::Connected),
        Err(RendezvousError::SessionNotFound)
    );
    assert_eq!(
        reg.admit_member("no-such-session", loc(1, 1), ProbeOutcome::Refused),
        Err(RendezvousError::SessionNotFound)
    );
    assert_eq!(RendezvousError::SessionNotFound.status_code(), 404);
    assert!(reg.get_members(&id).unwrap().is_empty());
}

#[test]
fn created_ids_are_uuid_text_and_distinct() {
    let mut reg = SessionRegistry::new();
    let a = new_session(&mut reg);
    let b = new_session(&mut reg);
    assert_ne!(a, b);
    for id in [&a, &b] {
        assert_eq!(id.len(), 36);
        assert_eq!(id.matches('-').count(), 4);
        assert!(id.chars().all(|c| c == '-' || c.is_ascii_hexdigit()));
    }
}

#[test]
fn opening_a_taken_id_fails() {
    let mut reg = SessionRegistry::new();
    assert_eq!(reg.open_session("fixed".to_string()), Ok("fixed".to_string()));
    reg.admit_member("fixed", loc(3, 3), ProbeOutcome::Connected).unwrap();
    assert_eq!(reg.open_session("fixed".to_string()), Err(RendezvousError::Internal));
    assert_eq!(reg.get_members("fixed").unwrap(), vec![loc(3, 3)]);
}

#[test]
fn probe_target_checks_address_then_session() {
    let mut reg = SessionRegistry::new();
    let id = new_session(&mut reg);
    let c = loc(1, 1);
    assert_eq!(reg.probe_target(&id, Ok(c)), Ok(c));
    assert_eq!(reg.probe_target("unknown", Ok(c)), Err(RendezvousError::SessionNotFound));
    assert_eq!(
        reg.probe_target("unknown", Err(RendezvousError::MalformedAddress)),
        Err(RendezvousError::MalformedAddress)
    );
    assert_eq!(
        reg.probe_target(&id, Err(RendezvousError::UnsupportedAddressFamily)),
        Err(RendezvousError::UnsupportedAddressFamily)
    );
}

#[test]
fn reads_list_each_member_once() {
    let mut reg = SessionRegistry::new();
    let id = new_session(&mut reg);
    for _ in 0..3 {
        for port in 1..4u16 {
            reg.admit_member(&id, loc(8, port), ProbeOutcome::Connected).unwrap();
        }
    }
    let members = reg.get_members(&id).unwrap();
    assert_eq!(members, vec![loc(8, 1), loc(8, 2), loc(8, 3)]);
}

#[test]
fn created_ids_have_hyphens_in_place() {
    let mut reg = SessionRegistry::new();
    let id = new_session(&mut reg);
    let chars: Vec<char> = id.chars().collect();
    assert_eq!(chars.len(), 36);
    for i in [8, 13, 18, 23] {
        assert_eq!(chars[i], '-');
    }
}
