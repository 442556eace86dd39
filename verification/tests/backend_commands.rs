use vecno_wallet::commands::{
    checked_total_available, wallet_open_state,
    check_open_password, check_verified_password, check_wallet_file, check_wallet_open, check_wallet_ready,
    check_create_request, check_funds, check_password_request, check_signing_secret,
    classify_open_failure, created_message, default_account_address, imported_message,
    last_submitted, opened_message, plan_create, plan_import, plan_legacy_import, plan_open,
    total_available, trimmed_secret, wallet_entry, NodeCache,
};
use vecno_wallet::models::{CreateWalletInput, ImportWalletInput, OpenWalletInput};

const TWELVE: &str = "abandon abandon abandon abandon abandon abandon abandon abandon abandon abandon abandon about";

fn err<T: std::fmt::Debug>(r: Result<T, vecno_wallet::models::ErrorResponse>) -> String {
    r.unwrap_err().error
}

#[test]
fn password_requests() {
    assert_eq!(err(check_password_request("", "")), "Wallet filename is required");
    assert_eq!(err(check_password_request("f", "")), "Wallet password is required");
    assert!(check_password_request("f", "p").is_ok());
}

#[test]
fn open_requests_are_trimmed() {
    let input = OpenWalletInput {
        secret: "  pw  ".into(),
        filename: " /w/a.wallet ".into(),
        payment_secret: Some("   ".into()),
    };
    let req = plan_open(&input).unwrap();
    assert_eq!(req.filename, "/w/a.wallet");
    assert_eq!(req.secret, "pw");
    assert_eq!(req.payment_secret, None);
    let input = OpenWalletInput { secret: "pw".into(), filename: "   ".into(), payment_secret: None };
    assert_eq!(err(plan_open(&input)), "Wallet filename is required");
    let input = OpenWalletInput { secret: " ".into(), filename: "f".into(), payment_secret: None };
    assert_eq!(err(plan_open(&input)), "Wallet password is required");
}

#[test]
fn create_requests() {
    let input = CreateWalletInput {
        secret: " pw ".into(),
        filename: " mine ".into(),
        payment_secret: Some(" extra words ".into()),
    };
    let plan = plan_create(&input).unwrap();
    assert_eq!(plan.secret, "pw");
    assert_eq!(plan.filename, "mine");
    assert_eq!(plan.payment_secret, Some("extra words".into()));
    let input = CreateWalletInput { secret: "".into(), filename: "".into(), payment_secret: None };
    assert_eq!(err(plan_create(&input)), "Wallet password is required");
    let input = CreateWalletInput { secret: "pw".into(), filename: " ".into(), payment_secret: None };
    assert_eq!(err(plan_create(&input)), "Wallet filename is required");
    assert_eq!(err(check_create_request("", "f")), "Wallet password is required");
    assert_eq!(err(check_create_request("s", "")), "Wallet filename is required");
}

fn import(mnemonic: &str, secret: &str, filename: &str, payment: Option<&str>) -> ImportWalletInput {
    ImportWalletInput {
        mnemonic: mnemonic.into(),
        secret: secret.into(),
        payment_secret: payment.map(|p| p.into()),
        filename: filename.into(),
    }
}

#[test]
fn import_refusals_in_order() {
    assert_eq!(err(plan_import(&import(TWELVE, "", "f", None))), "Wallet password is required");
    assert_eq!(err(plan_import(&import("  ", "pw", "f", None))), "Mnemonic is required");
    assert_eq!(err(plan_import(&import(TWELVE, "pw", "", None))), "Wallet filename is required");
    assert_eq!(
        err(plan_import(&import("abandon about", "pw", "f", None))),
        "Mnemonic must be exactly 12 or 24 words"
    );
    let bad = "abandon abandon abandon abandon abandon abandon abandon abandon abandon abandon abandon abandon";
    assert_eq!(err(plan_import(&import(bad, "pw", "f", None))), "Invalid mnemonic format");
}

#[test]
fn import_keeps_the_normalized_phrase() {
    let spaced = format!("  {}  ", TWELVE.replace(' ', "   "));
    let plan = plan_import(&import(&spaced, "pw", "f", Some("  secret "))).unwrap();
    assert_eq!(plan.phrase, TWELVE);
    assert_eq!(plan.payment_secret, Some("secret".into()));
    let plan = plan_import(&import(TWELVE, "pw", "f", Some("   "))).unwrap();
    assert_eq!(plan.payment_secret, None);
}

#[test]
fn legacy_import_takes_only_24_words() {
    assert_eq!(err(plan_legacy_import(TWELVE, "pw", "f")), "Mnemonic must be 24 words");
    assert_eq!(err(plan_legacy_import("not words", "pw", "f")), "Invalid mnemonic: Must be 24 words");
    assert_eq!(err(plan_legacy_import("", "pw", "f")), "Mnemonic is required");
    let phrase = vecno_wallet::mnemonic::generate_mnemonic().unwrap();
    assert_eq!(plan_legacy_import(&phrase, "pw", "f").unwrap(), phrase);
}

#[test]
fn success_messages() {
    assert_eq!(created_message("/w/a", "x y"), "Success: Wallet created at /w/a with mnemonic: x y");
    assert_eq!(opened_message("/w/a"), "Success: Wallet opened from /w/a");
    assert_eq!(imported_message("/w/a"), "Success: Wallet imported at /w/a");
}

#[test]
fn store_failures_that_read_as_wrong_passwords() {
    assert_eq!(classify_open_failure("DECRYPTION failed", "ctx: "), "Incorrect password provided");
    assert_eq!(classify_open_failure("chacha Crypto error", "ctx: "), "Incorrect password provided");
    assert_eq!(classify_open_failure("Invalid Key length", "ctx: "), "Incorrect password provided");
    assert_eq!(
        classify_open_failure("file not found", "Failed to open storage: "),
        "Failed to open storage: file not found"
    );
}

#[test]
fn wallet_files_are_listed_by_suffix() {
    let w = wallet_entry("savings.wallet", "/app/savings.wallet").unwrap();
    assert_eq!(w.name, "savings");
    assert_eq!(w.path, "/app/savings.wallet");
    assert!(wallet_entry("notes.txt", "/app/notes.txt").is_none());
    assert!(wallet_entry("wallet", "/app/wallet").is_none());
    assert_eq!(wallet_entry(".wallet", "/app/.wallet").unwrap().name, "");
}

#[test]
fn the_default_account() {
    let a = default_account_address("r".into(), "c".into());
    assert_eq!(a.account_name, "default-account");
    assert_eq!(a.account_index, 0);
    assert_eq!(a.receive_address, "r");
    assert_eq!(a.change_address, "c");
}

#[test]
fn funds_and_signing() {
    assert_eq!(total_available(&vec![1, 2, 3]), 6);
    assert_eq!(total_available(&vec![]), 0);
    assert!(check_funds(10, 10).is_ok());
    assert_eq!(err(check_funds(9, 10)), "Insufficient funds: need 10 VENI, have 9");
    assert_eq!(
        err(check_signing_secret(true, &None)),
        "\u{1f510} Wallet is encrypted! You MUST enter your Payment Secret to send."
    );
    assert!(check_signing_secret(true, &Some("s".into())).is_ok());
    assert!(check_signing_secret(false, &None).is_ok());
    assert_eq!(last_submitted(&vec!["a".into(), "b".into()]), "b");
    assert_eq!(last_submitted(&vec![]), "");
    assert_eq!(trimmed_secret(&Some(" s ".into())), Some("s".into()));
    assert_eq!(trimmed_secret(&Some("  ".into())), None);
}

#[test]
fn node_cache_answers_what_was_resolved() {
    let mut cache = NodeCache::default();
    assert!(cache.cached_node().is_none());
    let info = cache.record_resolution(Some("wss://node".into())).unwrap();
    assert_eq!(info.url, "wss://node");
    assert_eq!(cache.cached_node().unwrap().url, "wss://node");
    let failure = cache.record_resolution(None).unwrap_err();
    assert_eq!(
        failure.error,
        "Failed to connect to Vecno node. Check your internet connection or try again later."
    );
    assert!(cache.cached_node().is_none());
}

#[test]
fn what_the_import_form_accepts_the_command_refuses_only_for_a_bad_phrase() {
    let padded = format!("  {}  ", TWELVE);
    assert!(vecno_wallet::forms::check_import_form(&padded, "password1", "mine").is_ok());
    assert!(plan_import(&import(&padded, "password1", "mine", None)).is_ok());

    let bad = "abandon abandon abandon abandon abandon abandon abandon abandon abandon abandon abandon abandon";
    assert!(vecno_wallet::forms::check_import_form(bad, "password1", "mine").is_ok());
    assert_eq!(err(plan_import(&import(bad, "password1", "mine", None))), "Invalid mnemonic format");
}

#[test]
fn wallet_and_file_guards() {
    assert_eq!(err(check_wallet_ready(None)), "No wallet initialized");
    assert_eq!(err(check_wallet_ready(Some(false))), "Wallet is not open");
    assert!(check_wallet_ready(Some(true)).is_ok());
    assert_eq!(err(check_wallet_open(None)), "Wallet is not open");
    assert_eq!(err(check_wallet_open(Some(false))), "Wallet is not open");
    assert!(check_wallet_open(Some(true)).is_ok());
    assert_eq!(err(check_wallet_file(false)), "Wallet file does not exist");
    assert!(check_wallet_file(true).is_ok());
    assert_eq!(err(check_open_password(false)), "Incorrect wallet password");
    assert!(check_open_password(true).is_ok());
    assert_eq!(err(check_verified_password(false)), "Incorrect password provided");
    assert!(check_verified_password(true).is_ok());
}

#[test]
fn checked_totals_and_the_open_state() {
    assert_eq!(checked_total_available(&vec![1, 2, 3]), Some(6));
    assert_eq!(checked_total_available(&vec![]), Some(0));
    assert_eq!(checked_total_available(&vec![u64::MAX, 1]), None);
    assert_eq!(err(wallet_open_state(None)), "No wallet initialized");
    assert_eq!(wallet_open_state(Some(false)).unwrap(), false);
    assert_eq!(wallet_open_state(Some(true)).unwrap(), true);
}
