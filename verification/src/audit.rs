//! Audit log entries: what happened to which wallet, and when.
//!
//! Each wallet operation is recorded as one entry; the entries are appended
//! to a JSON-lines file by the caller. Building an entry is pure: the time
//! stamp is handed in.
use vstd::prelude::*;
use vstd::string::*;

verus! {

/// One line of the audit log.
#[derive(Debug, Clone)]
pub struct AuditEntry {
    pub timestamp: String,
    pub wallet_id: String,
    pub operation: String,
    pub chain_id: Option<String>,
    pub address: Option<String>,
    pub details: Option<String>,
}

/// The text of an optional string.
pub open spec fn opt_text(s: Option<String>) -> Option<Seq<char>> {
    match s {
        Some(t) => Some(t@),
        None => None,
    }
}

/// The fields of an entry, as text.
pub open spec fn entry_is(
    e: AuditEntry,
    timestamp: Seq<char>,
    wallet_id: Seq<char>,
    operation: Seq<char>,
    chain_id: Option<Seq<char>>,
    address: Option<Seq<char>>,
    details: Option<Seq<char>>,
) -> bool {
    &&& e.timestamp@ == timestamp
    &&& e.wallet_id@ == wallet_id
    &&& e.operation@ == operation
    &&& opt_text(e.chain_id) == chain_id
    &&& opt_text(e.address) == address
    &&& opt_text(e.details) == details
}

fn text(s: &str) -> (t: String)
    ensures
        t@ == s@,
{
    String::from_str(s)
}

impl AuditEntry {
    /// A wallet creation event.
    pub fn wallet_created(timestamp: String, wallet_id: &str, chain_id: &str, address: &str) -> (e:
        AuditEntry)
        ensures
            entry_is(
                e,
                timestamp@,
                wallet_id@,
                "create_wallet"@,
                Some(chain_id@),
                Some(address@),
                None,
            ),
    {
        AuditEntry {
            timestamp,
            wallet_id: text(wallet_id),
            operation: text("create_wallet"),
            chain_id: Some(text(chain_id)),
            address: Some(text(address)),
            details: None,
        }
    }

    /// A signing event, under the operation's own name.
    pub fn sign(timestamp: String, wallet_id: &str, chain_id: &str, operation: &str) -> (e:
        AuditEntry)
        ensures
            entry_is(e, timestamp@, wallet_id@, operation@, Some(chain_id@), None, None),
    {
        AuditEntry {
            timestamp,
            wallet_id: text(wallet_id),
            operation: text(operation),
            chain_id: Some(text(chain_id)),
            address: None,
            details: None,
        }
    }

    /// A wallet import event.
    pub fn wallet_imported(timestamp: String, wallet_id: &str, chain_id: &str, address: &str) -> (e:
        AuditEntry)
        ensures
            entry_is(
                e,
                timestamp@,
                wallet_id@,
                "import_wallet"@,
                Some(chain_id@),
                Some(address@),
                None,
            ),
    {
        AuditEntry {
            timestamp,
            wallet_id: text(wallet_id),
            operation: text("import_wallet"),
            chain_id: Some(text(chain_id)),
            address: Some(text(address)),
            details: None,
        }
    }

    /// A wallet export event.
    pub fn wallet_exported(timestamp: String, wallet_id: &str) -> (e: AuditEntry)
        ensures
            entry_is(e, timestamp@, wallet_id@, "export_wallet"@, None, None, None),
    {
        AuditEntry {
            timestamp,
            wallet_id: text(wallet_id),
            operation: text("export_wallet"),
            chain_id: None,
            address: None,
            details: None,
        }
    }

    /// A wallet deletion event; the details name the wallet: `name=<name>`.
    pub fn wallet_deleted(timestamp: String, wallet_id: &str, name: &str) -> (e: AuditEntry)
        ensures
            entry_is(
                e,
                timestamp@,
                wallet_id@,
                "delete_wallet"@,
                None,
                None,
                Some("name="@ + name@),
            ),
    {
        let mut details = text("name=");
        details.append(name);
        AuditEntry {
            timestamp,
            wallet_id: text(wallet_id),
            operation: text("delete_wallet"),
            chain_id: None,
            address: None,
            details: Some(details),
        }
    }

    /// A wallet rename event; the details read `<old> -> <new>`.
    pub fn wallet_renamed(timestamp: String, wallet_id: &str, old_name: &str, new_name: &str) -> (e:
        AuditEntry)
        ensures
            entry_is(
                e,
                timestamp@,
                wallet_id@,
                "rename_wallet"@,
                None,
                None,
                Some(old_name@ + " -> "@ + new_name@),
            ),
    {
        let mut details = text(old_name);
        details.append(" -> ");
        details.append(new_name);
        AuditEntry {
            timestamp,
            wallet_id: text(wallet_id),
            operation: text("rename_wallet"),
            chain_id: None,
            address: None,
            details: Some(details),
        }
    }

    /// A broadcast event; the details carry the transaction hash:
    /// `tx_hash=<hash>`.
    pub fn broadcast(timestamp: String, wallet_id: &str, chain_id: &str, tx_hash: &str) -> (e:
        AuditEntry)
        ensures
            entry_is(
                e,
                timestamp@,
                wallet_id@,
                "broadcast_transaction"@,
                Some(chain_id@),
                None,
                Some("tx_hash="@ + tx_hash@),
            ),
    {
        let mut details = text("tx_hash=");
        details.append(tx_hash);
        AuditEntry {
            timestamp,
            wallet_id: text(wallet_id),
            operation: text("broadcast_transaction"),
            chain_id: Some(text(chain_id)),
            address: None,
            details: Some(details),
        }
    }

    /// An address derivation event, which belongs to no stored wallet: its
    /// wallet ID is `ephemeral`.
    pub fn derive(timestamp: String, chain_id: &str, address: &str) -> (e: AuditEntry)
        ensures
            entry_is(
                e,
                timestamp@,
                "ephemeral"@,
                "derive_address"@,
                Some(chain_id@),
                Some(address@),
                None,
            ),
    {
        AuditEntry {
            timestamp,
            wallet_id: text("ephemeral"),
            operation: text("derive_address"),
            chain_id: Some(text(chain_id)),
            address: Some(text(address)),
            details: None,
        }
    }
}

} // verus!
