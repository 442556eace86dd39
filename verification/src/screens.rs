//! The decisions of the wallet's user interface between the user and the
//! backend: which screen may be shown, what a reply of the backend means and
//! which notification it raises, how the balance line is filled, and how the
//! lists of recent payments grow.
use vstd::prelude::*;
use crate::models::{NodeInfo, Screen, ToastKind, Transaction};
use crate::display::copy_transaction;
use crate::text::{
    chars_of, concat2, contains_str, find_chars, has_substring, occurs_at, parse_u64, string_of,
    u64_text_value,
};

verus! {

// ---------------------------------------------------------------------------
// Navigation
// ---------------------------------------------------------------------------

/// The screens that show an open wallet.
pub open spec fn shows_wallet(s: Screen) -> bool {
    s is Wallet || s is Receive || s is Transactions || s is Send
}

/// Whether `s` shows an open wallet.
pub fn needs_wallet(s: &Screen) -> (b: bool)
    ensures
        b == shows_wallet(*s),
{
    match s {
        Screen::Wallet | Screen::Receive | Screen::Transactions | Screen::Send => true,
        _ => false,
    }
}

/// Where a navigation request leads: the screens of an open wallet only when a
/// wallet is open; every other screen always.
pub fn navigate(wallet_open: bool, target: Screen) -> (r: Option<Screen>)
    ensures
        shows_wallet(target) && !wallet_open ==> r is None,
        !(shows_wallet(target) && !wallet_open) ==> r == Some(target),
{
    if needs_wallet(&target) && !wallet_open {
        None
    } else {
        Some(target)
    }
}

/// Whether the interface must (re)load the wallet's addresses: a wallet is open
/// and one of its screens is shown.
pub fn loads_wallet_data(wallet_open: bool, screen: &Screen) -> (b: bool)
    ensures
        b == (wallet_open && shows_wallet(*screen)),
{
    wallet_open && needs_wallet(screen)
}

// ---------------------------------------------------------------------------
// Replies of the backend
// ---------------------------------------------------------------------------

/// What the interface does with a reply to an open, create or import request.
#[derive(Debug, PartialEq)]
pub struct ReplyOutcome {
    pub toast: (String, ToastKind),
    pub wallet_open: bool,
    pub screen: Option<Screen>,
}

/// The marker before the recovery phrase in the answer to a create request.
pub open spec fn phrase_marker() -> Seq<char> {
    "with mnemonic: "@
}

/// `i` is the first position of `p` in `s`.
pub open spec fn first_at(s: Seq<char>, p: Seq<char>, i: int) -> bool {
    occurs_at(s, p, i) && forall|k: int| 0 <= k < i ==> !occurs_at(s, p, k)
}

proof fn lemma_first_at_unique(s: Seq<char>, p: Seq<char>, i: int, j: int)
    requires
        first_at(s, p, i),
        first_at(s, p, j),
    ensures
        i == j,
{
}

/// The second piece of `s` split at `p`: what follows the first `p`, up to the
/// next `p` (or the end). Nothing when `p` does not occur.
pub open spec fn second_piece(s: Seq<char>, p: Seq<char>) -> Option<Seq<char>> {
    if has_substring(s, p) {
        let i = choose|i: int| first_at(s, p, i);
        let rest = s.skip(i + p.len());
        if has_substring(rest, p) {
            let j = choose|j: int| first_at(rest, p, j);
            Some(rest.take(j))
        } else {
            Some(rest)
        }
    } else {
        None
    }
}

/// `s.split(p).nth(1)`.
pub fn split_second(s: &str, p: &str) -> (r: Option<String>)
    ensures
        r matches Some(t) ==> second_piece(s@, p@) == Some(t@),
        r is None ==> second_piece(s@, p@) is None,
{
    let sv = chars_of(s);
    let pv = chars_of(p);
    match find_chars(&sv, &pv) {
        None => None,
        Some(i) => {
            let ghost chosen = choose|i: int| first_at(s@, p@, i);
            proof {
                assert(first_at(s@, p@, i as int));
                lemma_first_at_unique(s@, p@, i as int, chosen);
            }
            let slen = sv.len();
            proof {
                assert(i + pv@.len() <= slen);
            }
            let start = i + pv.len();
            let mut rest: Vec<char> = Vec::new();
            let mut k: usize = start;
            while k < sv.len()
                invariant
                    start <= k <= sv@.len(),
                    rest@ == sv@.subrange(start as int, k as int),
                decreases sv@.len() - k,
            {
                rest.push(sv[k]);
                proof {
                    assert(sv@.subrange(start as int, k + 1) =~= sv@.subrange(start as int, k as int).push(
                        sv@[k as int],
                    ));
                }
                k = k + 1;
            }
            proof {
                assert(rest@ =~= s@.skip(start as int));
            }
            match find_chars(&rest, &pv) {
                None => Some(string_of(&rest)),
                Some(j) => {
                    let ghost chosen_j = choose|j: int| first_at(rest@, p@, j);
                    proof {
                        assert(first_at(rest@, p@, j as int));
                        lemma_first_at_unique(rest@, p@, j as int, chosen_j);
                    }
                    let mut piece: Vec<char> = Vec::new();
                    let mut m: usize = 0;
                    while m < j
                        invariant
                            m <= j,
                            j <= rest@.len(),
                            piece@ == rest@.take(m as int),
                        decreases j - m,
                    {
                        piece.push(rest[m]);
                        proof {
                            assert(rest@.take(m + 1) =~= rest@.take(m as int).push(rest@[m as int]));
                        }
                        m = m + 1;
                    }
                    Some(string_of(&piece))
                },
            }
        },
    }
}

/// The recovery phrase in the answer to a create request, if the answer holds
/// the marker before it.
pub fn phrase_in_reply(reply: &str) -> (r: Option<String>)
    ensures
        r matches Some(t) ==> second_piece(reply@, phrase_marker()) == Some(t@),
        r is None ==> second_piece(reply@, phrase_marker()) is None,
{
    split_second(reply, "with mnemonic: ")
}

/// A reply that reports success.
pub open spec fn reports_success(reply: Seq<char>) -> bool {
    has_substring(reply, "Success"@)
}

/// What follows a reply to an open request: on success, a notification, an
/// open wallet and its dashboard; otherwise the reply (or, when the reply was
/// not text, `error_text`) as an error.
pub fn open_reply(reply: Option<String>, error_text: String) -> (r: ReplyOutcome)
    ensures
        match reply {
            Some(s) => if reports_success(s@) {
                r.toast.0@ == "Wallet opened successfully!"@ && r.toast.1 == ToastKind::Success
                    && r.wallet_open && r.screen == Some(Screen::Wallet)
            } else {
                r.toast.0 == s && r.toast.1 == ToastKind::Error && !r.wallet_open && r.screen is None
            },
            None => r.toast.0 == error_text && r.toast.1 == ToastKind::Error && !r.wallet_open
                && r.screen is None,
        },
{
    match reply {
        Some(s) => {
            if contains_str(s.as_str(), "Success") {
                ReplyOutcome {
                    toast: ("Wallet opened successfully!".to_owned(), ToastKind::Success),
                    wallet_open: true,
                    screen: Some(Screen::Wallet),
                }
            } else {
                ReplyOutcome { toast: (s, ToastKind::Error), wallet_open: false, screen: None }
            }
        },
        None => ReplyOutcome { toast: (error_text, ToastKind::Error), wallet_open: false, screen: None },
    }
}

/// What follows a reply to a create request: on success, a notification, an
/// open wallet and the recovery phrase to write down (or the dashboard when
/// the reply holds no phrase); otherwise the reply, or `error_text`, as an
/// error.
pub fn create_reply(reply: Option<String>, error_text: String) -> (r: ReplyOutcome)
    ensures
        match reply {
            Some(s) => if reports_success(s@) {
                &&& r.toast.0@ == "Wallet created!"@
                &&& r.toast.1 == ToastKind::Success
                &&& r.wallet_open
                &&& match second_piece(s@, phrase_marker()) {
                    Some(m) => r.screen matches Some(Screen::MnemonicDisplay(shown)) && shown@ == m,
                    None => r.screen == Some(Screen::Wallet),
                }
            } else {
                r.toast.0 == s && r.toast.1 == ToastKind::Error && !r.wallet_open && r.screen is None
            },
            None => r.toast.0 == error_text && r.toast.1 == ToastKind::Error && !r.wallet_open
                && r.screen is None,
        },
{
    match reply {
        Some(s) => {
            if contains_str(s.as_str(), "Success") {
                let screen = match phrase_in_reply(s.as_str()) {
                    Some(m) => Screen::MnemonicDisplay(m),
                    None => Screen::Wallet,
                };
                ReplyOutcome {
                    toast: ("Wallet created!".to_owned(), ToastKind::Success),
                    wallet_open: true,
                    screen: Some(screen),
                }
            } else {
                ReplyOutcome { toast: (s, ToastKind::Error), wallet_open: false, screen: None }
            }
        },
        None => ReplyOutcome { toast: (error_text, ToastKind::Error), wallet_open: false, screen: None },
    }
}

/// What follows a reply to an import request: on success, a notification, an
/// open wallet and its dashboard; otherwise the reply, or `error_text`, as an
/// error.
pub fn import_reply(reply: Option<String>, error_text: String) -> (r: ReplyOutcome)
    ensures
        match reply {
            Some(s) => if reports_success(s@) {
                r.toast.0@ == "Wallet imported!"@ && r.toast.1 == ToastKind::Success && r.wallet_open
                    && r.screen == Some(Screen::Wallet)
            } else {
                r.toast.0 == s && r.toast.1 == ToastKind::Error && !r.wallet_open && r.screen is None
            },
            None => r.toast.0 == error_text && r.toast.1 == ToastKind::Error && !r.wallet_open
                && r.screen is None,
        },
{
    match reply {
        Some(s) => {
            if contains_str(s.as_str(), "Success") {
                ReplyOutcome {
                    toast: ("Wallet imported!".to_owned(), ToastKind::Success),
                    wallet_open: true,
                    screen: Some(Screen::Wallet),
                }
            } else {
                ReplyOutcome { toast: (s, ToastKind::Error), wallet_open: false, screen: None }
            }
        },
        None => ReplyOutcome { toast: (error_text, ToastKind::Error), wallet_open: false, screen: None },
    }
}

/// A reply to password verification that reads as a failure.
pub open spec fn verification_failed(msg: Seq<char>) -> bool {
    ||| has_substring(msg, "Incorrect password"@)
    ||| has_substring(msg, "error"@)
    ||| has_substring(msg, "not exist"@)
    ||| has_substring(msg, "Invalid"@)
    ||| has_substring(msg, "failed"@)
}

/// Reads the reply to password verification: a failure is reported with the
/// reply itself.
pub fn verification_reply(msg: String) -> (r: Result<(), String>)
    ensures
        verification_failed(msg@) ==> r == Err::<(), String>(msg),
        !verification_failed(msg@) ==> r is Ok,
{
    if contains_str(msg.as_str(), "Incorrect password") || contains_str(msg.as_str(), "error")
        || contains_str(msg.as_str(), "not exist") || contains_str(msg.as_str(), "Invalid")
        || contains_str(msg.as_str(), "failed") {
        Err(msg)
    } else {
        Ok(())
    }
}

/// The notification for a failed verification: `Incorrect password` when the
/// failure says so, else the failure itself.
pub fn verification_failure_toast(err: String) -> (r: String)
    ensures
        has_substring(err@, "Incorrect password"@) ==> r@ == "Incorrect password"@,
        !has_substring(err@, "Incorrect password"@) ==> r == err,
{
    if contains_str(err.as_str(), "Incorrect password") {
        "Incorrect password".to_owned()
    } else {
        err
    }
}

// ---------------------------------------------------------------------------
// The balance line
// ---------------------------------------------------------------------------

/// What the balance line shows: a text, or an amount of veni to render.
#[derive(Clone, Debug, PartialEq)]
pub enum BalanceShown {
    Text(String),
    Veni(u64),
}

/// What the interface does with the reply to a balance query.
#[derive(Debug, PartialEq)]
pub struct BalanceOutcome {
    pub toast: Option<(String, ToastKind)>,
    pub shown: BalanceShown,
}

/// A reply to a balance query that reads as a failure.
pub open spec fn balance_failed(msg: Seq<char>) -> bool {
    ||| has_substring(msg, "error"@)
    ||| has_substring(msg, "Error"@)
    ||| has_substring(msg, "failed"@)
    ||| has_substring(msg, "Failed"@)
}

/// The text a balance line shows, when it shows one.
pub open spec fn shown_text(shown: BalanceShown) -> Option<Seq<char>> {
    match shown {
        BalanceShown::Text(s) => Some(s@),
        BalanceShown::Veni(_) => None,
    }
}

/// The view of an optional notification.
pub open spec fn toast_view(t: Option<(String, ToastKind)>) -> Option<(Seq<char>, ToastKind)> {
    match t {
        Some(x) => Some((x.0@, x.1)),
        None => None,
    }
}

/// Reads the reply to a balance query. Without an address there is nothing to
/// ask; a reply that reads as a failure is shown as such; a text reply is the
/// balance in veni when it reads as a number; anything else is unavailable.
/// `msg` is the reply's message, `text` the reply when it is text.
pub fn balance_outcome(has_address: bool, msg: String, text: Option<String>) -> (r: BalanceOutcome)
    ensures
        !has_address ==> toast_view(r.toast) == Some(
            ("No valid address for balance query"@, ToastKind::Warning),
        ) && shown_text(r.shown) == Some("Balance: No valid address available"@),
        has_address && balance_failed(msg@) ==> toast_view(r.toast) == Some((msg@, ToastKind::Error))
            && shown_text(r.shown) == Some("Balance: unavailable"@),
        has_address && !balance_failed(msg@) && text is None ==> toast_view(r.toast) == Some(
            (msg@, ToastKind::Error),
        ) && shown_text(r.shown) == Some("Balance: unavailable"@),
        has_address && !balance_failed(msg@) && text is Some ==> match u64_text_value(
            text->0@,
        ) {
            Some(v) => r.toast is None && r.shown == BalanceShown::Veni(v as u64),
            None => {
                &&& r.toast is Some
                &&& (r.toast->0).1 == ToastKind::Error
                &&& (r.toast->0).0@.len() >= 21
                &&& (r.toast->0).0@.take(21) == "Balance parse error: "@
                &&& shown_text(r.shown) is Some
                &&& shown_text(r.shown)->0.len() >= 17
                &&& shown_text(r.shown)->0.take(17) == "Balance: Error - "@
                &&& (r.toast->0).0@.skip(21) == shown_text(r.shown)->0.skip(17)
            },
        },
{
    if !has_address {
        return BalanceOutcome {
            toast: Some(("No valid address for balance query".to_owned(), ToastKind::Warning)),
            shown: BalanceShown::Text("Balance: No valid address available".to_owned()),
        };
    }
    if contains_str(msg.as_str(), "error") || contains_str(msg.as_str(), "Error") || contains_str(
        msg.as_str(),
        "failed",
    ) || contains_str(msg.as_str(), "Failed") {
        return BalanceOutcome {
            toast: Some((msg, ToastKind::Error)),
            shown: BalanceShown::Text("Balance: unavailable".to_owned()),
        };
    }
    match text {
        Some(t) => match parse_u64(t.as_str()) {
            Ok(v) => BalanceOutcome { toast: None, shown: BalanceShown::Veni(v) },
            Err(e) => {
                proof {
                    reveal_strlit("Balance parse error: ");
                    reveal_strlit("Balance: Error - ");
                }
                let toast = concat2("Balance parse error: ", e.as_str());
                let shown = concat2("Balance: Error - ", e.as_str());
                proof {
                    assert(toast@.take(21) =~= "Balance parse error: "@);
                    assert(shown@.take(17) =~= "Balance: Error - "@);
                    assert(toast@.skip(21) =~= e@);
                    assert(shown@.skip(17) =~= e@);
                }
                BalanceOutcome {
                    toast: Some((toast, ToastKind::Error)),
                    shown: BalanceShown::Text(shown),
                }
            },
        },
        None => BalanceOutcome {
            toast: Some((msg, ToastKind::Error)),
            shown: BalanceShown::Text("Balance: unavailable".to_owned()),
        },
    }
}

// ---------------------------------------------------------------------------
// The node indicator
// ---------------------------------------------------------------------------

/// What the node indicator shows.
#[derive(Debug, PartialEq)]
pub struct NodeStatus {
    pub connected: bool,
    pub info: NodeInfo,
    pub toast: Option<(String, ToastKind)>,
}

/// Reads the replies about the node: connected when the first reply says
/// `true`; then the node's details, or `Unknown` with the second reply's
/// message as an error. When not connected, a warning.
pub fn node_status(connection_msg: &str, info: Option<NodeInfo>, info_msg: String) -> (r: NodeStatus)
    ensures
        has_substring(connection_msg@, "true"@) ==> r.connected && match info {
            Some(i) => r.info == i && r.toast is None,
            None => r.info.url@ == "Unknown"@ && r.toast == Some((info_msg, ToastKind::Error)),
        },
        !has_substring(connection_msg@, "true"@) ==> !r.connected && r.info.url@
            == "Not connected"@ && toast_view(r.toast) == Some(
            ("Warning: Not connected to Vecno node"@, ToastKind::Warning),
        ),
{
    if contains_str(connection_msg, "true") {
        match info {
            Some(i) => NodeStatus { connected: true, info: i, toast: None },
            None => NodeStatus {
                connected: true,
                info: NodeInfo { url: "Unknown".to_owned() },
                toast: Some((info_msg, ToastKind::Error)),
            },
        }
    } else {
        NodeStatus {
            connected: false,
            info: NodeInfo { url: "Not connected".to_owned() },
            toast: Some(("Warning: Not connected to Vecno node".to_owned(), ToastKind::Warning)),
        }
    }
}

// ---------------------------------------------------------------------------
// Recent payments
// ---------------------------------------------------------------------------

/// How many sent payments the send screen remembers.
pub const REMEMBERED_SENT: usize = 2;

/// A copy of `list` with the same entries.
fn copy_list(list: &Vec<Transaction>) -> (r: Vec<Transaction>)
    ensures
        r@ == list@,
{
    let mut r: Vec<Transaction> = Vec::new();
    let mut i: usize = 0;
    while i < list.len()
        invariant
            i <= list@.len(),
            r@ == list@.take(i as int),
        decreases list@.len() - i,
    {
        r.push(copy_transaction(&list[i]));
        proof {
            assert(list@.take(i + 1) =~= list@.take(i as int).push(list@[i as int]));
        }
        i = i + 1;
    }
    proof {
        assert(list@.take(list@.len() as int) =~= list@);
    }
    r
}

/// The payments the send screen remembers after `sent`: it first, then the
/// earlier ones, at most `REMEMBERED_SENT` in all.
pub fn remember_sent(list: &Vec<Transaction>, sent: Transaction) -> (r: Vec<Transaction>)
    ensures
        r@ == (seq![sent] + list@).take(
            if list@.len() + 1 <= REMEMBERED_SENT {
                list@.len() + 1int
            } else {
                REMEMBERED_SENT as int
            },
        ),
{
    let mut r = copy_list(list);
    r.insert(0, sent);
    proof {
        assert(r@ =~= seq![sent] + list@);
    }
    let ghost full = r@;
    r.truncate(REMEMBERED_SENT);
    proof {
        if full.len() <= REMEMBERED_SENT {
            assert(full.take(full.len() as int) =~= full);
        }
    }
    r
}

/// The history with a payment just sent shown first, before the node reports
/// it.
pub fn with_optimistic_entry(list: &Vec<Transaction>, sent: Transaction) -> (r: Vec<Transaction>)
    ensures
        r@ == seq![sent] + list@,
{
    let mut r = copy_list(list);
    r.insert(0, sent);
    proof {
        assert(r@ =~= seq![sent] + list@);
    }
    r
}

// ---------------------------------------------------------------------------
// The recovery phrase survives the reply
// ---------------------------------------------------------------------------

/// The answer of the backend to a create request, as `created_message`
/// writes it.
pub open spec fn created_text(path: Seq<char>, phrase: Seq<char>) -> Seq<char> {
    "Success: Wallet created at "@ + path + " with mnemonic: "@ + phrase
}

/// The interface finds in the backend's answer to a create request exactly the
/// recovery phrase the backend generated, and reads the answer as a success,
/// whenever the wallet's path does not itself hold `with mnemonic:` and the
/// phrase does not hold the marker.
pub proof fn lemma_phrase_survives_reply(path: Seq<char>, phrase: Seq<char>)
    requires
        !has_substring(path, "with mnemonic:"@),
        !has_substring(phrase, phrase_marker()),
    ensures
        reports_success(created_text(path, phrase)),
        second_piece(created_text(path, phrase), phrase_marker()) == Some(phrase),
{
    reveal_strlit("Success: Wallet created at ");
    reveal_strlit(" with mnemonic: ");
    reveal_strlit("with mnemonic: ");
    reveal_strlit("with mnemonic:");
    reveal_strlit("Success");
    let a = "Success: Wallet created at "@;
    let b = " with mnemonic: "@;
    let m = phrase_marker();
    let msg = created_text(path, phrase);
    let pl = path.len() as int;
    assert(a.len() == 27);
    assert(b.len() == 16);
    assert(m.len() == 15);
    assert(msg =~= a + path + b + phrase);
    assert(msg.len() == 27 + pl + 16 + phrase.len());
    assert forall|t: int| 0 <= t < 27 implies #[trigger] msg[t] == a[t] by {}
    assert forall|t: int| 0 <= t < pl implies #[trigger] msg[27 + t] == path[t] by {}
    assert forall|t: int| 0 <= t < 16 implies #[trigger] msg[27 + pl + t] == b[t] by {}
    assert forall|t: int| 0 <= t < phrase.len() implies #[trigger] msg[43 + pl + t] == phrase[t] by {}
    // "Success" opens the answer.
    assert(msg.subrange(0, 7) =~= "Success"@);
    assert(occurs_at(msg, "Success"@, 0));
    // The marker right after the path.
    let idx = 28 + pl;
    assert(msg.subrange(idx, idx + 15) =~= m) by {
        assert forall|t: int| 0 <= t < 15 implies msg.subrange(idx, idx + 15)[t] == m[t] by {
            assert(msg[27 + pl + (t + 1)] == b[t + 1]);
        }
    }
    assert(occurs_at(msg, m, idx));
    // No earlier marker.
    assert forall|k: int| 0 <= k < idx implies !occurs_at(msg, m, k) by {
        if occurs_at(msg, m, k) {
            assert(msg.subrange(k, k + 15)[0] == m[0]);
            assert(msg[k] == 'w');
            if k < 27 {
                assert(msg[k] == a[k]);
            } else if k < 27 + pl {
                let l = 27 + pl - k;
                if l >= 14 {
                    let j = k - 27;
                    assert(path.subrange(j, j + 14) =~= "with mnemonic:"@) by {
                        assert forall|t: int| 0 <= t < 14 implies path.subrange(j, j + 14)[t]
                            == "with mnemonic:"@[t] by {
                            assert(msg.subrange(k, k + 15)[t] == m[t]);
                            assert(msg[27 + (j + t)] == path[j + t]);
                        }
                    }
                    assert(occurs_at(path, "with mnemonic:"@, j));
                } else {
                    assert(msg.subrange(k, k + 15)[l] == m[l]);
                    assert(msg[27 + pl + 0] == b[0]);
                    assert(msg[k + l] == ' ');
                    if l == 4 {
                        assert(msg.subrange(k, k + 15)[5] == m[5]);
                        assert(msg[27 + pl + 1] == b[1]);
                    }
                }
            } else {
                assert(msg[27 + pl + 0] == b[0]);
            }
        }
    }
    assert(first_at(msg, m, idx));
    assert(has_substring(msg, m));
    let chosen = choose|i: int| first_at(msg, m, i);
    lemma_first_at_unique(msg, m, idx, chosen);
    assert(msg.skip(idx + 15) =~= phrase);
}

} // verus!
