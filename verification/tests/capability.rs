use zen_core::capability::AuditEntry;
use zen_core::capability::CapabilityError;
use zen_core::capability::CapabilityRegistry;
use zen_core::capability::CapabilityToken;
use zen_core::capability::Permission;
use zen_core::capability::ProcessTokenStorage;
use zen_core::capability::AUDIT_LOG_SIZE;
use zen_core::capability::AUDIT_RESULT_DENIED;
use zen_core::capability::TOKENS_PER_PROCESS;

#[test]
fn token_fields_and_bitmap() {
    let token = CapabilityToken::new(42, 0b1001);
    assert_eq!(token.process_id, 42);
    assert_eq!(token.permissions, 0b1001);
    assert_eq!(token.expires_at, u64::MAX);
    assert_eq!(token.signature.len(), 32);
    assert!(token.has_permission(Permission::Read));
    assert!(token.has_permission(Permission::IpcSend));
    assert!(!token.has_permission(Permission::Write));
    assert!(!token.has_permission(Permission::GpuAccess));
}

#[test]
fn storage_add_and_get() {
    let mut storage = ProcessTokenStorage::new();
    assert!(storage.get_token(0).is_none());
    storage.add_token(CapabilityToken::new(1, 0b10)).unwrap();
    let held = storage.get_token(0).expect("first slot taken");
    assert_eq!(held.permissions, 0b10);
    assert!(storage.get_token(1).is_none());
    assert!(storage.get_token(TOKENS_PER_PROCESS + 5).is_none());
}

#[test]
fn storage_fills_up() {
    let mut storage = ProcessTokenStorage::new();
    for _ in 0..TOKENS_PER_PROCESS {
        storage.add_token(CapabilityToken::new(1, 1)).unwrap();
    }
    let overflow = storage.add_token(CapabilityToken::new(1, 1));
    assert_eq!(overflow, Err(CapabilityError::StorageFull));
}

#[test]
fn root_process_has_all_permissions() {
    let mut caps = CapabilityRegistry::init();
    assert_eq!(caps.check(0, Permission::Read, 0), Ok(true));
    assert_eq!(caps.check(0, Permission::NetworkAccess, 0), Ok(true));
    assert_eq!(caps.check(0, Permission::IpcSend, 0), Ok(true));
}

#[test]
fn check_reflects_union_of_grants() {
    let mut caps = CapabilityRegistry::init();
    let bit = |p: Permission| 1u64 << zen_core::capability::permission_bit(p);

    caps.grant(7, bit(Permission::IpcSend)).unwrap();
    assert_eq!(caps.check(7, Permission::IpcSend, 0), Ok(true));
    assert_eq!(
        caps.check(7, Permission::Read, 0),
        Err(CapabilityError::PermissionDenied)
    );

    // An unrelated grant keeps the earlier right and adds the new one.
    caps.grant(7, bit(Permission::Read)).unwrap();
    assert_eq!(caps.check(7, Permission::IpcSend, 0), Ok(true));
    assert_eq!(caps.check(7, Permission::Read, 0), Ok(true));
    assert_eq!(
        caps.check(7, Permission::Write, 0),
        Err(CapabilityError::PermissionDenied)
    );
}

#[test]
fn check_without_storage() {
    let mut caps = CapabilityRegistry::init();
    assert_eq!(
        caps.check(5, Permission::Read, 0),
        Err(CapabilityError::NoTokenStorage)
    );
    assert_eq!(
        caps.check_ipc_permission(5, 0, 0),
        Err(CapabilityError::NoTokenStorage)
    );
}

#[test]
fn grant_rejects_out_of_range_process() {
    let mut caps = CapabilityRegistry::init();
    let r = caps.grant(1_000_000, 1);
    assert_eq!(r.err(), Some(CapabilityError::NoTokenStorage));
}

#[test]
fn grant_fills_process_storage() {
    let mut caps = CapabilityRegistry::init();
    for _ in 0..TOKENS_PER_PROCESS {
        caps.grant(9, 1).unwrap();
    }
    assert_eq!(caps.grant(9, 1).err(), Some(CapabilityError::StorageFull));
}

#[test]
fn denied_check_appends_audit_entry() {
    let mut caps = CapabilityRegistry::init();
    caps.grant(3, 0).unwrap();
    assert_eq!(caps.audit().write_position(), 0);
    assert_eq!(
        caps.check(3, Permission::IpcSend, 99),
        Err(CapabilityError::PermissionDenied)
    );
    assert_eq!(caps.audit().write_position(), 1);
    let entry = caps.audit().entry_at(0);
    assert_eq!(entry.process_id, 3);
    assert_eq!(entry.timestamp, 99);
    assert_eq!(
        entry.action,
        zen_core::capability::permission_bit(Permission::IpcSend) as u32
    );
    assert_eq!(entry.result, AUDIT_RESULT_DENIED);
}

#[test]
fn successful_check_leaves_audit_alone() {
    let mut caps = CapabilityRegistry::init();
    assert_eq!(caps.check(0, Permission::Read, 7), Ok(true));
    assert_eq!(caps.audit().write_position(), 0);
}

#[test]
fn audit_log_wraps() {
    let mut caps = CapabilityRegistry::init();
    for i in 0..AUDIT_LOG_SIZE {
        caps.audit_log(AuditEntry::new(i as u64, 1, 2, 3));
    }
    assert_eq!(caps.audit().write_position(), 0);
    caps.audit_log(AuditEntry::new(777, 4, 5, 6));
    assert_eq!(caps.audit().write_position(), 1);
    assert_eq!(caps.audit().entry_at(0).timestamp, 777);
    assert_eq!(caps.audit().entry_at(1).timestamp, 1);
}
