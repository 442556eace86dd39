//! The records exchanged between the wallet's user interface and its backend,
//! and the small enums that drive what the interface shows.
use vstd::prelude::*;
use crate::text::{has_substring, occurs_at};

verus! {

/// The receive and change address of one account.
#[derive(Clone, Debug, PartialEq)]
pub struct WalletAddress {
    pub account_name: String,
    pub account_index: u32,
    pub receive_address: String,
    pub change_address: String,
}

/// Arguments of a request to create a wallet file.
#[derive(Debug)]
pub struct CreateWalletArgs {
    pub secret: String,
    pub filename: String,
}

/// Arguments of a request to import a wallet from a recovery phrase.
#[derive(Debug)]
pub struct ImportWalletArgs {
    pub mnemonic: String,
    pub secret: String,
    pub payment_secret: Option<String>,
    pub filename: String,
}

/// A balance, in veni, and the Unix time at which it was computed.
#[derive(Clone, Debug, PartialEq)]
pub struct BalanceResponse {
    pub balance: u64,
    pub timestamp: i64,
}

/// Arguments of a balance query.
#[derive(Debug)]
pub struct GetBalanceArgs {
    pub address: String,
}

/// Arguments of a payment request.
#[derive(Debug)]
pub struct SendTransactionArgs {
    pub to_address: String,
    pub amount: u64,
}

/// A wallet file found in the application folder.
#[derive(Clone, Debug, PartialEq)]
pub struct WalletFile {
    pub name: String,
    pub path: String,
}

/// One entry of the transaction history, or a payment just sent.
#[derive(Clone, Debug, PartialEq)]
pub struct Transaction {
    pub txid: String,
    pub to_address: String,
    pub amount: u64,
    pub timestamp: String,
}

/// What the backend reports of a payment it submitted.
pub type SentTxInfo = Transaction;

/// The error that a backend command reports.
#[derive(Clone, Debug, PartialEq)]
pub struct ErrorResponse {
    pub error: String,
}

impl ErrorResponse {
    pub fn new(msg: &str) -> (r: ErrorResponse)
        ensures
            r.error@ == msg@,
    {
        ErrorResponse { error: msg.to_owned() }
    }
}

/// The node the wallet talks to.
#[derive(Clone, Debug, PartialEq)]
pub struct NodeInfo {
    pub url: String,
}

/// Input of the create-wallet command.
#[derive(Clone, Debug)]
pub struct CreateWalletInput {
    pub secret: String,
    pub filename: String,
    pub payment_secret: Option<String>,
}

/// Input of the open-wallet command.
#[derive(Clone, Debug)]
pub struct OpenWalletInput {
    pub secret: String,
    pub filename: String,
    pub payment_secret: Option<String>,
}

/// Input of the import-wallet command.
#[derive(Clone, Debug)]
pub struct ImportWalletInput {
    pub mnemonic: String,
    pub secret: String,
    pub payment_secret: Option<String>,
    pub filename: String,
}

/// Input of the send-transaction command.
#[derive(Clone, Debug)]
pub struct SendTransactionInput {
    pub to_address: String,
    pub amount: u64,
    pub payment_secret: Option<String>,
}

/// The screens of the wallet's user interface.
#[derive(Clone, Debug, PartialEq)]
pub enum Screen {
    Intro,
    Home,
    CreateWallet,
    ImportWallet,
    MnemonicDisplay(String),
    Wallet,
    Receive,
    Transactions,
    Send,
}

/// The kinds of notification the interface shows.
#[derive(Clone, Copy, Debug, PartialEq, Eq, Structural)]
pub enum ToastKind {
    Error,
    Success,
    Warning,
    Info,
}

impl Default for ToastKind {
    fn default() -> (k: ToastKind)
        ensures
            k == ToastKind::Error,
    {
        ToastKind::Error
    }
}

impl ToastKind {
    /// The style class of a notification of this kind, as text.
    pub open spec fn class_text(self) -> Seq<char> {
        match self {
            ToastKind::Error => "toast-error"@,
            ToastKind::Success => "toast-success"@,
            ToastKind::Warning => "toast-warning"@,
            ToastKind::Info => "toast-info"@,
        }
    }

    /// The icon of a notification of this kind, as text.
    pub open spec fn icon_mask_text(self) -> Seq<char> {
        match self {
            ToastKind::Error => "data:image/svg+xml,%3Csvg xmlns='http://www.w3.org/2000/svg' viewBox='0 0 24 24' fill='none' stroke='%23f87171' stroke-width='2'%3E%3Ccircle cx='12' cy='12' r='10'%3E%3C/circle%3E%3Cline x1='15' y1='9' x2='9' y2='15'%3E%3C/line%3E%3Cline x1='9' y1='9' x2='15' y2='15'%3E%3C/line%3E%3C/svg%3E"@,
            ToastKind::Success => "data:image/svg+xml,%3Csvg xmlns='http://www.w3.org/2000/svg' viewBox='0 0 24 24' fill='none' stroke='%232dd4bf' stroke-width='2'%3E%3Cpolyline points='20 6 9 17 4 12'%3E%3C/polyline%3E%3C/svg%3E"@,
            ToastKind::Warning => "data:image/svg+xml,%3Csvg xmlns='http://www.w3.org/2000/svg' viewBox='0 0 24 24' fill='none' stroke='%23fbbf24' stroke-width='2'%3E%3Cpath d='M12 9v2m0 4h.01m-6.938 4h13.856c1.54 0 2.502-1.667 1.732-3L13.732 4c-.77-1.333-2.694-1.333-3.464 0L3.34 16c-.77 1.333.192 3 1.732 3z'%3E%3C/path%3E%3C/svg%3E"@,
            ToastKind::Info => "data:image/svg+xml,%3Csvg xmlns='http://www.w3.org/2000/svg' viewBox='0 0 24 24' fill='none' stroke='%236b7280' stroke-width='2'%3E%3Ccircle cx='12' cy='12' r='10'%3E%3C/circle%3E%3Cpath d='M12 16v-4m0-4h.01'%3E%3C/path%3E%3C/svg%3E"@,
        }
    }

    /// The colour an icon of this kind is stroked in, URL-encoded.
    pub open spec fn icon_colour(self) -> Seq<char> {
        match self {
            ToastKind::Error => "%23f87171"@,
            ToastKind::Success => "%232dd4bf"@,
            ToastKind::Warning => "%23fbbf24"@,
            ToastKind::Info => "%236b7280"@,
        }
    }

    /// The style class of a notification of this kind.
    pub fn class(&self) -> (c: &'static str)
        ensures
            c@ == self.class_text(),
    {
        match self {
            ToastKind::Error => "toast-error",
            ToastKind::Success => "toast-success",
            ToastKind::Warning => "toast-warning",
            ToastKind::Info => "toast-info",
        }
    }

    /// The icon of a notification of this kind, as an SVG data URL.
    pub fn icon_mask(&self) -> (m: &'static str)
        ensures
            m@ == self.icon_mask_text(),
    {
        match self {
            ToastKind::Error => "data:image/svg+xml,%3Csvg xmlns='http://www.w3.org/2000/svg' viewBox='0 0 24 24' fill='none' stroke='%23f87171' stroke-width='2'%3E%3Ccircle cx='12' cy='12' r='10'%3E%3C/circle%3E%3Cline x1='15' y1='9' x2='9' y2='15'%3E%3C/line%3E%3Cline x1='9' y1='9' x2='15' y2='15'%3E%3C/line%3E%3C/svg%3E",
            ToastKind::Success => "data:image/svg+xml,%3Csvg xmlns='http://www.w3.org/2000/svg' viewBox='0 0 24 24' fill='none' stroke='%232dd4bf' stroke-width='2'%3E%3Cpolyline points='20 6 9 17 4 12'%3E%3C/polyline%3E%3C/svg%3E",
            ToastKind::Warning => "data:image/svg+xml,%3Csvg xmlns='http://www.w3.org/2000/svg' viewBox='0 0 24 24' fill='none' stroke='%23fbbf24' stroke-width='2'%3E%3Cpath d='M12 9v2m0 4h.01m-6.938 4h13.856c1.54 0 2.502-1.667 1.732-3L13.732 4c-.77-1.333-2.694-1.333-3.464 0L3.34 16c-.77 1.333.192 3 1.732 3z'%3E%3C/path%3E%3C/svg%3E",
            ToastKind::Info => "data:image/svg+xml,%3Csvg xmlns='http://www.w3.org/2000/svg' viewBox='0 0 24 24' fill='none' stroke='%236b7280' stroke-width='2'%3E%3Ccircle cx='12' cy='12' r='10'%3E%3C/circle%3E%3Cpath d='M12 16v-4m0-4h.01'%3E%3C/path%3E%3C/svg%3E",
        }
    }
}

/// Every notification icon is an SVG data URL without a double quote, so it
/// can stand inside `url("...")`; it is stroked in its kind's colour; and the
/// four kinds have four different icons.
pub proof fn lemma_toast_icons(k: ToastKind, j: ToastKind)
    ensures
        k.icon_mask_text().len() >= 19,
        k.icon_mask_text().take(19) == "data:image/svg+xml,"@,
        forall|i: int| 0 <= i < k.icon_mask_text().len() ==> k.icon_mask_text()[i] != '"',
        has_substring(k.icon_mask_text(), k.icon_colour()),
        k != j ==> k.icon_mask_text() != j.icon_mask_text(),
{
    reveal_strlit("data:image/svg+xml,");
    reveal_strlit("%23f87171");
    reveal_strlit("%232dd4bf");
    reveal_strlit("%23fbbf24");
    reveal_strlit("%236b7280");
    reveal_strlit("data:image/svg+xml,%3Csvg xmlns='http://www.w3.org/2000/svg' viewBox='0 0 24 24' fill='none' stroke='%23f87171' stroke-width='2'%3E%3Ccircle cx='12' cy='12' r='10'%3E%3C/circle%3E%3Cline x1='15' y1='9' x2='9' y2='15'%3E%3C/line%3E%3Cline x1='9' y1='9' x2='15' y2='15'%3E%3C/line%3E%3C/svg%3E");
    reveal_strlit("data:image/svg+xml,%3Csvg xmlns='http://www.w3.org/2000/svg' viewBox='0 0 24 24' fill='none' stroke='%232dd4bf' stroke-width='2'%3E%3Cpolyline points='20 6 9 17 4 12'%3E%3C/polyline%3E%3C/svg%3E");
    reveal_strlit("data:image/svg+xml,%3Csvg xmlns='http://www.w3.org/2000/svg' viewBox='0 0 24 24' fill='none' stroke='%23fbbf24' stroke-width='2'%3E%3Cpath d='M12 9v2m0 4h.01m-6.938 4h13.856c1.54 0 2.502-1.667 1.732-3L13.732 4c-.77-1.333-2.694-1.333-3.464 0L3.34 16c-.77 1.333.192 3 1.732 3z'%3E%3C/path%3E%3C/svg%3E");
    reveal_strlit("data:image/svg+xml,%3Csvg xmlns='http://www.w3.org/2000/svg' viewBox='0 0 24 24' fill='none' stroke='%236b7280' stroke-width='2'%3E%3Ccircle cx='12' cy='12' r='10'%3E%3C/circle%3E%3Cpath d='M12 16v-4m0-4h.01'%3E%3C/path%3E%3C/svg%3E");
    let t = k.icon_mask_text();
    assert(t.take(19) =~= "data:image/svg+xml,"@);
    assert(t.subrange(101, 110) =~= k.icon_colour());
    assert(occurs_at(t, k.icon_colour(), 101));
    assert(k != j ==> t.len() != j.icon_mask_text().len());
}

} // verus!
