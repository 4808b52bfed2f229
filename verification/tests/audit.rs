use ows_wallet::audit::AuditEntry;

const T: &str = "2024-01-01T00:00:00+00:00";

#[test]
fn created_and_imported_entries() {
    let e = AuditEntry::wallet_created(T.to_string(), "w1", "eip155:1", "0xabc");
    assert_eq!(e.timestamp, T);
    assert_eq!(e.wallet_id, "w1");
    assert_eq!(e.operation, "create_wallet");
    assert_eq!(e.chain_id.as_deref(), Some("eip155:1"));
    assert_eq!(e.address.as_deref(), Some("0xabc"));
    assert_eq!(e.details, None);

    let e = AuditEntry::wallet_imported(T.to_string(), "w2", "xrpl:mainnet", "rabc");
    assert_eq!(e.operation, "import_wallet");
    assert_eq!(e.chain_id.as_deref(), Some("xrpl:mainnet"));
    assert_eq!(e.address.as_deref(), Some("rabc"));
}

#[test]
fn sign_entry_uses_given_operation() {
    let e = AuditEntry::sign(T.to_string(), "w1", "eip155:1", "sign_message");
    assert_eq!(e.operation, "sign_message");
    assert_eq!(e.chain_id.as_deref(), Some("eip155:1"));
    assert_eq!(e.address, None);
    assert_eq!(e.details, None);
}

#[test]
fn detail_formats() {
    let e = AuditEntry::wallet_deleted(T.to_string(), "w1", "main");
    assert_eq!(e.operation, "delete_wallet");
    assert_eq!(e.details.as_deref(), Some("name=main"));
    assert_eq!(e.chain_id, None);

    let e = AuditEntry::wallet_renamed(T.to_string(), "w1", "old", "new");
    assert_eq!(e.operation, "rename_wallet");
    assert_eq!(e.details.as_deref(), Some("old -> new"));

    let e = AuditEntry::broadcast(T.to_string(), "w1", "eip155:1", "0xdead");
    assert_eq!(e.operation, "broadcast_transaction");
    assert_eq!(e.details.as_deref(), Some("tx_hash=0xdead"));
    assert_eq!(e.chain_id.as_deref(), Some("eip155:1"));
}

#[test]
fn export_and_derive_entries() {
    let e = AuditEntry::wallet_exported(T.to_string(), "w9");
    assert_eq!(e.operation, "export_wallet");
    assert_eq!(e.chain_id, None);
    assert_eq!(e.address, None);
    assert_eq!(e.details, None);

    let e = AuditEntry::derive(T.to_string(), "solana:mainnet", "Abc");
    assert_eq!(e.wallet_id, "ephemeral");
    assert_eq!(e.operation, "derive_address");
    assert_eq!(e.address.as_deref(), Some("Abc"));
}
