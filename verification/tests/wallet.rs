use ows_wallet::wallet::{
    collect_accounts, decode_private_key_hex, delete_confirmation, export_terminal_check,
    export_warning_lines, exported_secret_text, import_key_type, mnemonic_notice_lines, mnemonic_output,
    mnemonic_phrase_text,
    mnemonic_strength, rename_step, wallet_account, wallet_created_report, wallet_deleted_line,
    wallet_imported_report, wallet_list_report, wallet_renamed_line, ChainDerivation, CliError,
    KeyType, MnemonicStrength, RenameStep, WalletAccount, WalletSummary,
};

fn message(e: CliError) -> String {
    match e {
        CliError::InvalidArgs(m) => m,
    }
}

#[test]
fn word_counts() {
    assert_eq!(mnemonic_strength(12).unwrap(), MnemonicStrength::Words12);
    assert_eq!(mnemonic_strength(24).unwrap(), MnemonicStrength::Words24);
    assert_eq!(message(mnemonic_strength(18).unwrap_err()), "--words must be 12 or 24");
}

#[test]
fn import_needs_exactly_one_source() {
    assert_eq!(import_key_type(true, false).unwrap(), KeyType::Mnemonic);
    assert_eq!(import_key_type(false, true).unwrap(), KeyType::PrivateKey);
    for (m, k) in [(true, true), (false, false)] {
        assert_eq!(
            message(import_key_type(m, k).unwrap_err()),
            "specify exactly one of --mnemonic or --private-key"
        );
    }
}

#[test]
fn private_key_hex() {
    assert_eq!(decode_private_key_hex("0xdeadBEEF").unwrap(), vec![0xde, 0xad, 0xbe, 0xef]);
    assert_eq!(decode_private_key_hex("0102").unwrap(), vec![1, 2]);
    assert_eq!(decode_private_key_hex("0x").unwrap(), Vec::<u8>::new());
    assert_eq!(decode_private_key_hex("").unwrap(), Vec::<u8>::new());
    let odd = message(decode_private_key_hex("0x123").unwrap_err());
    assert_eq!(odd, "invalid hex private key: Odd number of digits");
    let bad = message(decode_private_key_hex("0X12").unwrap_err());
    assert_eq!(bad, "invalid hex private key: Invalid character 'X' at position 1");
    assert_eq!(
        message(decode_private_key_hex("zz").unwrap_err()),
        "invalid hex private key: Invalid character 'z' at position 0"
    );
    assert_eq!(
        message(decode_private_key_hex("0xab1g").unwrap_err()),
        "invalid hex private key: Invalid character 'g' at position 3"
    );
    assert_eq!(
        message(decode_private_key_hex("a\n").unwrap_err()),
        "invalid hex private key: Invalid character '\\n' at position 1"
    );
    assert_eq!(
        message(decode_private_key_hex("0x'0").unwrap_err()),
        "invalid hex private key: Invalid character '\\'' at position 0"
    );
    assert_eq!(
        message(decode_private_key_hex("0\\").unwrap_err()),
        "invalid hex private key: Invalid character '\\\\' at position 1"
    );
    let control = message(decode_private_key_hex("\u{1}0").unwrap_err());
    assert!(control.starts_with("invalid hex private key: Invalid character '"));
    assert!(control.ends_with("' at position 0"));
}

#[test]
fn secrets_as_text() {
    assert_eq!(mnemonic_phrase_text(b"abandon about".to_vec()).unwrap(), "abandon about");
    let e = message(mnemonic_phrase_text(vec![0xff, 0xfe]).unwrap_err());
    assert!(e.starts_with("invalid UTF-8 in mnemonic: "));
    assert_eq!(
        message(mnemonic_phrase_text(vec![b'a', b'b', 0xff]).unwrap_err()),
        "invalid UTF-8 in mnemonic: invalid utf-8 sequence of 1 bytes from index 2"
    );
    assert_eq!(
        message(mnemonic_phrase_text(vec![b'a', 0xe2, 0x82]).unwrap_err()),
        "invalid UTF-8 in mnemonic: incomplete utf-8 byte sequence from index 1"
    );
    assert_eq!(exported_secret_text("clé".as_bytes().to_vec()).unwrap(), "clé");
    assert_eq!(
        message(exported_secret_text(vec![0xc3]).unwrap_err()),
        "wallet contains invalid UTF-8 secret"
    );
}

#[test]
fn account_ids() {
    let a = wallet_account("eip155:1", "0xabc".to_string(), "m/44'/60'/0'/0/0".to_string());
    assert_eq!(a.account_id, "eip155:1:0xabc");
    assert_eq!(a.address, "0xabc");
    assert_eq!(a.chain_id, "eip155:1");
    assert_eq!(a.derivation_path, "m/44'/60'/0'/0/0");
}

fn derivation(chain: &str, path: &str, address: Result<&str, u32>) -> ChainDerivation<u32> {
    ChainDerivation {
        chain_id: chain.to_string(),
        derivation_path: path.to_string(),
        address: address.map(|a| a.to_string()),
    }
}

#[test]
fn collecting_accounts() {
    let accounts = collect_accounts(vec![
        derivation("eip155:1", "p0", Ok("0xa")),
        derivation("xrpl:mainnet", "", Ok("rb")),
    ])
    .unwrap();
    assert_eq!(accounts.len(), 2);
    assert_eq!(accounts[0].account_id, "eip155:1:0xa");
    assert_eq!(accounts[1].account_id, "xrpl:mainnet:rb");
    assert_eq!(accounts[1].derivation_path, "");

    let first_error = collect_accounts(vec![
        derivation("a", "", Ok("x")),
        derivation("b", "", Err(7)),
        derivation("c", "", Err(8)),
    ]);
    assert_eq!(first_error.unwrap_err(), 7);
    assert!(collect_accounts::<u32>(vec![]).unwrap().is_empty());
}

fn acct(chain: &str, address: &str, path: &str) -> WalletAccount {
    wallet_account(chain, address.to_string(), path.to_string())
}

#[test]
fn created_and_imported_reports() {
    let accounts = vec![acct("eip155:1", "0xa", "m/0"), acct("xrpl:mainnet", "rb", "")];
    assert_eq!(
        wallet_created_report("id-1", "main", &accounts),
        vec![
            "Wallet created: id-1",
            "Name:           main",
            "",
            "  eip155:1 → 0xa",
            "    Path: m/0",
            "  xrpl:mainnet → rb",
        ]
    );
    assert_eq!(
        wallet_imported_report("id-2", "imp", &accounts[1..].to_vec()),
        vec!["Wallet imported: id-2", "Name:            imp", "", "  xrpl:mainnet → rb"]
    );
}

#[test]
fn mnemonic_output_shows_the_phrase_only_when_asked() {
    let shown = mnemonic_output(true, b"abandon about".to_vec()).unwrap();
    assert_eq!(shown.notice, mnemonic_notice_lines(true));
    assert_eq!(shown.phrase.as_deref(), Some("abandon about"));
    let hidden = mnemonic_output(false, b"abandon about".to_vec()).unwrap();
    assert_eq!(hidden.notice, mnemonic_notice_lines(false));
    assert!(hidden.phrase.is_none());
    assert!(mnemonic_output(false, vec![0xff]).is_ok());
    assert_eq!(
        message(mnemonic_output(true, vec![0xff]).unwrap_err()),
        "invalid UTF-8 in mnemonic: invalid utf-8 sequence of 1 bytes from index 0"
    );
}

#[test]
fn mnemonic_notices() {
    assert_eq!(
        mnemonic_notice_lines(true),
        vec![
            "",
            "⚠️  WARNING: The mnemonic below provides FULL ACCESS to this wallet.",
            "⚠️  Store it securely offline. It will NOT be shown again.",
            "",
        ]
    );
    assert_eq!(
        mnemonic_notice_lines(false),
        vec![
            "",
            "Mnemonic encrypted and saved to vault.",
            "Use --show-mnemonic at creation time if you need a backup copy.",
        ]
    );
}

#[test]
fn export_checks_and_warnings() {
    assert!(export_terminal_check(true).is_ok());
    assert_eq!(
        message(export_terminal_check(false).unwrap_err()),
        "wallet export requires an interactive terminal (do not pipe stdin)"
    );
    assert_eq!(
        export_warning_lines(KeyType::Mnemonic),
        vec![
            "",
            "WARNING: The mnemonic below provides FULL ACCESS to this wallet.",
            "Do not share it. Store it securely offline.",
            "",
        ]
    );
    assert_eq!(
        export_warning_lines(KeyType::PrivateKey)[1],
        "WARNING: The private key below provides FULL ACCESS to this wallet."
    );
}

#[test]
fn deleting_needs_confirmation() {
    assert!(delete_confirmation("main", true).is_ok());
    let (hint, e) = delete_confirmation("main", false).unwrap_err();
    assert_eq!(
        hint,
        vec![
            "To delete a wallet, pass --confirm.",
            "Consider exporting it first: lws wallet export --wallet main",
        ]
    );
    assert_eq!(message(e), "--confirm is required to delete a wallet");
    assert_eq!(wallet_deleted_line("id-1", "main"), "Wallet deleted: id-1 (main)");
}

#[test]
fn renaming() {
    assert!(matches!(rename_step("a", "a", None), RenameStep::Unchanged));
    assert!(matches!(rename_step("a", "a", Some(true)), RenameStep::Unchanged));
    assert!(matches!(rename_step("a", "b", None), RenameStep::CheckNameTaken));
    assert!(matches!(rename_step("a", "b", Some(false)), RenameStep::Save));
    match rename_step("a", "b", Some(true)) {
        RenameStep::Refuse(e) => assert_eq!(message(e), "a wallet named 'b' already exists"),
        other => panic!("unexpected {:?}", other),
    }
    assert_eq!(wallet_renamed_line("a", "b"), "Wallet renamed: 'a' -> 'b'");
}

#[test]
fn listing() {
    assert_eq!(wallet_list_report(&vec![]), vec!["No wallets found."]);
    let wallets = vec![
        WalletSummary {
            id: "id-1".to_string(),
            name: "main".to_string(),
            accounts: vec![acct("eip155:1", "0xa", "m/0"), acct("xrpl:mainnet", "rb", "m/1")],
            created_at: "2024-01-01".to_string(),
        },
        WalletSummary {
            id: "id-2".to_string(),
            name: "empty".to_string(),
            accounts: vec![],
            created_at: "2024-02-02".to_string(),
        },
    ];
    assert_eq!(
        wallet_list_report(&wallets),
        vec![
            "ID:      id-1",
            "Name:    main",
            "Secured: ✓ (encrypted)",
            "  eip155:1 → 0xa",
            "  xrpl:mainnet → rb",
            "Created: 2024-01-01",
            "",
            "ID:      id-2",
            "Name:    empty",
            "Secured: ✓ (encrypted)",
            "Created: 2024-02-02",
            "",
        ]
    );
}
