//! Tests of the id allocator and the session registry.

use clawrunner::validate_size;
use clawrunner::validate_write_len;
use clawrunner::PtyError;
use clawrunner::SessionIdAllocator;
use clawrunner::SessionRegistry;
use clawrunner::MAX_WRITE_SIZE;

#[test]
fn ids_are_unique_and_nonzero_across_spawns_and_kills() {
    let mut reg: SessionRegistry<&'static str> = SessionRegistry::new();
    let mut seen: Vec<u64> = Vec::new();
    let mut live: Vec<u64> = Vec::new();
    for round in 0..50 {
        let (id, displaced) = reg.register("handle");
        assert!(displaced.is_none());
        assert_ne!(id, 0);
        assert!(!seen.contains(&id));
        seen.push(id);
        live.push(id);
        if round % 3 == 0 {
            let victim = live.remove(0);
            let removed = reg.kill(victim);
            assert_eq!(removed.len(), 1);
            assert_eq!(removed[0].0, victim);
        }
    }
    assert_eq!(reg.len(), live.len());
}

#[test]
fn allocator_never_returns_zero_even_at_wraparound() {
    let mut alloc = SessionIdAllocator::new();
    assert_eq!(alloc.allocate(), 1);
    assert_eq!(alloc.allocate(), 2);
    let mut near_top = SessionIdAllocator { last: u64::MAX - 1 };
    assert_eq!(near_top.allocate(), u64::MAX);
    // wrapping skips the reserved sentinel 0
    assert_eq!(near_top.allocate(), 1);
    assert_eq!(near_top.allocate(), 2);
}

#[test]
fn kill_zero_terminates_every_live_session_exactly_once() {
    let mut reg: SessionRegistry<u32> = SessionRegistry::new();
    let mut ids: Vec<u64> = Vec::new();
    for n in 0..5u32 {
        let (id, _) = reg.register(n);
        ids.push(id);
    }
    let removed = reg.kill(0);
    assert_eq!(removed.len(), 5);
    // each live session appears exactly once in the teardown list
    for id in &ids {
        assert_eq!(removed.iter().filter(|(rid, _)| rid == id).count(), 1);
    }
    assert_eq!(reg.len(), 0);
    for id in &ids {
        assert!(matches!(reg.lookup(*id), Err(PtyError::ResourceNotFound)));
    }
    // killing again is a no-op, not an error
    assert!(reg.kill(0).is_empty());
}

#[test]
fn kill_then_write_decision_is_resource_not_found() {
    let mut reg: SessionRegistry<u8> = SessionRegistry::new();
    let (id, _) = reg.register(9);
    assert!(reg.lookup(id).is_ok());
    let removed = reg.kill(id);
    assert_eq!(removed.len(), 1);
    assert!(matches!(reg.lookup(id), Err(PtyError::ResourceNotFound)));
    // idempotent: a second kill of the same id removes nothing
    assert!(reg.kill(id).is_empty());
}

#[test]
fn unknown_id_is_not_found_but_kill_is_no_error() {
    let mut reg: SessionRegistry<u8> = SessionRegistry::new();
    assert!(matches!(reg.lookup(12345), Err(PtyError::ResourceNotFound)));
    assert!(reg.kill(12345).is_empty());
}

#[test]
fn zero_terminal_size_is_rejected() {
    assert!(matches!(validate_size(0, 24), Err(PtyError::InvalidArgument)));
    assert!(matches!(validate_size(80, 0), Err(PtyError::InvalidArgument)));
    assert!(matches!(validate_size(0, 0), Err(PtyError::InvalidArgument)));
    assert!(validate_size(80, 24).is_ok());
    assert!(validate_size(1, 1).is_ok());
}

#[test]
fn oversized_write_payload_is_rejected() {
    assert!(validate_write_len(0).is_ok());
    assert!(validate_write_len(MAX_WRITE_SIZE).is_ok());
    assert!(matches!(validate_write_len(MAX_WRITE_SIZE + 1), Err(PtyError::InvalidArgument)));
}
