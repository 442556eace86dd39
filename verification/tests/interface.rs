use vecno_wallet::display::{
    account_label, amount_sign, dashboard_balance_text, difficulty_label, direction_label,
    explorer_url, format_with_commas, height_label, is_outgoing, latest_four,
    loading_balance_text, market_cap_label, recent_sent, selected_wallet_label, supply_label,
    toast_icon_style, trim_decimal_zeros, ve_label,
};
use vecno_wallet::models::{NodeInfo, Screen, ToastKind, Transaction, WalletFile};
use vecno_wallet::screens::{
    balance_outcome, create_reply, import_reply, loads_wallet_data, navigate, needs_wallet,
    node_status, open_reply, phrase_in_reply, remember_sent, split_second, verification_failure_toast,
    verification_reply, with_optimistic_entry, BalanceShown,
};
use vecno_wallet::commands::created_message;

fn tx(id: &str, to: &str) -> Transaction {
    Transaction { txid: id.into(), to_address: to.into(), amount: 1, timestamp: "t".into() }
}

#[test]
fn format_with_commas_groups_by_three() {
    assert_eq!(format_with_commas(0), "0");
    assert_eq!(format_with_commas(999), "999");
    assert_eq!(format_with_commas(1000), "1,000");
    assert_eq!(format_with_commas(1234567), "1,234,567");
    assert_eq!(format_with_commas(12345678), "12,345,678");
    assert_eq!(format_with_commas(u64::MAX), "18,446,744,073,709,551,615");
}

#[test]
fn commas_removed_give_the_number() {
    for n in [0u64, 5, 10_000, 987_654_321, u64::MAX] {
        assert_eq!(format_with_commas(n).replace(',', ""), n.to_string());
    }
}

#[test]
fn amount_labels() {
    assert_eq!(ve_label(0, "0.00000000"), "0 VE");
    assert_eq!(ve_label(150_000_000, "1.50000000"), "1.50000000 VE");
    assert_eq!(trim_decimal_zeros("1.50000000 VE"), "1.50000000 VE");
    assert_eq!(trim_decimal_zeros("1.500"), "1.5");
    assert_eq!(trim_decimal_zeros("100.00"), "100");
    assert_eq!(trim_decimal_zeros("0.00"), "0");
}

#[test]
fn difficulty_labels() {
    assert_eq!(difficulty_label("12.50", 0), "12.5");
    assert_eq!(difficulty_label("1.00", 2), "1 M");
    assert_eq!(difficulty_label("999.99", 6), "999.99 E");
}

#[test]
fn transaction_direction() {
    assert!(is_outgoing(&tx("a", "vecno:other"), "vecno:own"));
    assert!(!is_outgoing(&tx("a", "vecno:own"), "vecno:own"));
    assert!(!is_outgoing(&tx("a", ""), "vecno:own"));
    assert_eq!(direction_label(true), "Sent");
    assert_eq!(direction_label(false), "Received");
    assert_eq!(amount_sign(true), "-");
    assert_eq!(amount_sign(false), "+");
    assert_eq!(explorer_url("abc"), "https://vecnoscan.org/txs/abc");
}

#[test]
fn lists_of_recent_entries() {
    let list: Vec<Transaction> = (0..6).map(|i| tx(&format!("t{i}"), "x")).collect();
    let ids = |v: Vec<Transaction>| v.into_iter().map(|t| t.txid).collect::<Vec<_>>();
    assert_eq!(ids(latest_four(&list)), vec!["t2", "t3", "t4", "t5"]);
    assert_eq!(ids(latest_four(&list[..2].to_vec())), vec!["t0", "t1"]);
    assert_eq!(ids(recent_sent(&list)), vec!["t5", "t4", "t3", "t2"]);
    assert_eq!(ids(recent_sent(&vec![])), Vec::<String>::new());
}

#[test]
fn balance_placeholders() {
    assert_eq!(dashboard_balance_text(true, "5 VE"), "Fetching balance...");
    assert_eq!(dashboard_balance_text(false, ""), "Preparing balance...");
    assert_eq!(dashboard_balance_text(false, "Balance: unavailable"), "Preparing balance...");
    assert_eq!(dashboard_balance_text(false, "5 VE"), "5 VE");
    assert_eq!(loading_balance_text(true, "", "Fetching..."), "Fetching...");
    assert_eq!(loading_balance_text(true, "5 VE", "Fetching..."), "5 VE");
}

#[test]
fn network_figures() {
    assert_eq!(height_label("1234567"), "1,234,567");
    assert_eq!(height_label("+12"), "12");
    assert_eq!(height_label("12a"), "0");
    assert_eq!(height_label(""), "0");
    assert_eq!(supply_label("2500000000000000"), Some("25,000,000".to_string()));
    assert_eq!(supply_label("n/a"), None);
    assert_eq!(market_cap_label(1234), "$1,234");
}

#[test]
fn wallet_picker_label() {
    let wallets = vec![
        WalletFile { name: "a".into(), path: "/p/a".into() },
        WalletFile { name: "b".into(), path: "/p/b".into() },
    ];
    assert_eq!(selected_wallet_label(&wallets, "/p/b"), "b");
    assert_eq!(selected_wallet_label(&wallets, "/p/c"), "Select a wallet");
    assert_eq!(account_label(0), "Account #0");
}

#[test]
fn toast_style_uses_the_icon_twice() {
    let style = toast_icon_style(ToastKind::Info);
    let icon = ToastKind::Info.icon_mask();
    assert_eq!(style, format!("-webkit-mask-image: url(\"{}\"); mask-image: url(\"{}\");", icon, icon));
}

#[test]
fn navigation_needs_an_open_wallet() {
    assert_eq!(navigate(false, Screen::Send), None);
    assert_eq!(navigate(true, Screen::Send), Some(Screen::Send));
    assert_eq!(navigate(false, Screen::Home), Some(Screen::Home));
    assert_eq!(navigate(false, Screen::CreateWallet), Some(Screen::CreateWallet));
    assert!(needs_wallet(&Screen::Receive));
    assert!(!needs_wallet(&Screen::Intro));
    assert!(loads_wallet_data(true, &Screen::Transactions));
    assert!(!loads_wallet_data(false, &Screen::Transactions));
    assert!(!loads_wallet_data(true, &Screen::Home));
}

#[test]
fn replies_to_open_create_and_import() {
    let ok = open_reply(Some("Success: Wallet opened from /p".into()), "m".into());
    assert_eq!(ok.toast, ("Wallet opened successfully!".to_string(), ToastKind::Success));
    assert!(ok.wallet_open);
    assert_eq!(ok.screen, Some(Screen::Wallet));
    let no = open_reply(Some("Incorrect wallet password".into()), "m".into());
    assert_eq!(no.toast, ("Incorrect wallet password".to_string(), ToastKind::Error));
    assert!(!no.wallet_open);
    let odd = open_reply(None, "{\"error\":\"x\"}".into());
    assert_eq!(odd.toast.0, "{\"error\":\"x\"}");
    let made = create_reply(Some(created_message("/p/w", "alpha beta")), "m".into());
    assert_eq!(made.screen, Some(Screen::MnemonicDisplay("alpha beta".into())));
    assert_eq!(made.toast, ("Wallet created!".to_string(), ToastKind::Success));
    let plain = create_reply(Some("Success".into()), "m".into());
    assert_eq!(plain.screen, Some(Screen::Wallet));
    let imp = import_reply(Some("Success: Wallet imported at /p".into()), "m".into());
    assert_eq!(imp.toast, ("Wallet imported!".to_string(), ToastKind::Success));
    assert_eq!(imp.screen, Some(Screen::Wallet));
}

#[test]
fn splitting_like_std() {
    for (s, p) in [("a--b--c", "--"), ("abc", "--"), ("--x", "--"), ("x--", "--"), ("aaa", "aa")] {
        assert_eq!(split_second(s, p), s.split(p).nth(1).map(|x| x.to_string()));
    }
    assert_eq!(phrase_in_reply("Success: Wallet created at /p with mnemonic: a b c"), Some("a b c".into()));
}

#[test]
fn password_verification_replies() {
    assert_eq!(verification_reply("Incorrect password provided".into()), Err("Incorrect password provided".into()));
    assert_eq!(verification_reply("Wallet file does not exist".into()), Err("Wallet file does not exist".into()));
    assert_eq!(verification_reply("null".into()), Ok(()));
    assert_eq!(verification_failure_toast("Incorrect password provided".into()), "Incorrect password");
    assert_eq!(verification_failure_toast("disk failed".into()), "disk failed");
}

#[test]
fn balance_replies() {
    let o = balance_outcome(false, "".into(), None);
    assert_eq!(o.toast, Some(("No valid address for balance query".into(), ToastKind::Warning)));
    assert_eq!(o.shown, BalanceShown::Text("Balance: No valid address available".into()));
    let o = balance_outcome(true, "RPC Error".into(), Some("5".into()));
    assert_eq!(o.toast, Some(("RPC Error".into(), ToastKind::Error)));
    assert_eq!(o.shown, BalanceShown::Text("Balance: unavailable".into()));
    let o = balance_outcome(true, "12345".into(), Some("12345".into()));
    assert_eq!(o.toast, None);
    assert_eq!(o.shown, BalanceShown::Veni(12345));
    let o = balance_outcome(true, "abc".into(), Some("abc".into()));
    assert_eq!(o.toast, Some(("Balance parse error: invalid digit found in string".into(), ToastKind::Error)));
    assert_eq!(o.shown, BalanceShown::Text("Balance: Error - invalid digit found in string".into()));
    let o = balance_outcome(true, "{}".into(), None);
    assert_eq!(o.toast, Some(("{}".into(), ToastKind::Error)));
}

#[test]
fn node_indicator() {
    let s = node_status("true", Some(NodeInfo { url: "wss://n".into() }), "m".into());
    assert!(s.connected);
    assert_eq!(s.info.url, "wss://n");
    assert_eq!(s.toast, None);
    let s = node_status("true", None, "bad".into());
    assert_eq!(s.info.url, "Unknown");
    assert_eq!(s.toast, Some(("bad".into(), ToastKind::Error)));
    let s = node_status("false", None, "m".into());
    assert!(!s.connected);
    assert_eq!(s.info.url, "Not connected");
    assert_eq!(s.toast, Some(("Warning: Not connected to Vecno node".into(), ToastKind::Warning)));
}

#[test]
fn sent_payments_are_remembered_newest_first() {
    let list = remember_sent(&vec![], tx("a", "x"));
    let list = remember_sent(&list, tx("b", "x"));
    let list = remember_sent(&list, tx("c", "x"));
    assert_eq!(list.iter().map(|t| t.txid.as_str()).collect::<Vec<_>>(), vec!["c", "b"]);
    let history = with_optimistic_entry(&vec![tx("old", "x")], tx("new", "y"));
    assert_eq!(history.iter().map(|t| t.txid.as_str()).collect::<Vec<_>>(), vec!["new", "old"]);
}
