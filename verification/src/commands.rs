//! The decisions of the wallet backend's commands: which requests it accepts
//! and with which error it refuses the others, what it answers on success,
//! how it reads a failure of the wallet store, and the checks it makes before
//! it signs a payment.
use vstd::prelude::*;
use crate::models::{
    CreateWalletInput, ErrorResponse, ImportWalletInput, NodeInfo, OpenWalletInput, WalletAddress,
    WalletFile,
};
use crate::mnemonic::{bip39_parse, bip39_phrase, normalized_phrase, opt_view, parsed_phrase, parsed_word_count};
use crate::forms::import_form_refusal;
use crate::text::{
    lemma_trim_keeps_word_count,
    concat2, concat3, contains_str, decimal, decimal_string, has_substring, to_lowercase, trim,
    trimmed, unicode_lowercase, word_count, count_words,
};

verus! {

/// `r` is the error `msg`.
pub open spec fn fails_with<T>(r: Result<T, ErrorResponse>, msg: Seq<char>) -> bool {
    r matches Err(e) && e.error@ == msg
}

/// The text of `o` without surrounding whitespace, unless that leaves nothing.
pub open spec fn nonempty_trimmed(o: Option<String>) -> Option<Seq<char>> {
    match o {
        Some(p) => if trimmed(p@).len() == 0 {
            None
        } else {
            Some(trimmed(p@))
        },
        None => None,
    }
}

/// `o` trimmed, `None` when that leaves nothing.
pub fn trimmed_secret(o: &Option<String>) -> (r: Option<String>)
    ensures
        opt_view(r) == nonempty_trimmed(*o),
{
    match o {
        Some(p) => {
            let t = trim(p.as_str());
            if t.is_empty() {
                None
            } else {
                Some(t.to_owned())
            }
        },
        None => None,
    }
}

// ---------------------------------------------------------------------------
// Opening, creating and importing wallets
// ---------------------------------------------------------------------------

/// A request to use a wallet file needs a file name and then a password:
/// the first check of password verification and of opening a wallet.
pub fn check_password_request(filename: &str, secret: &str) -> (r: Result<(), ErrorResponse>)
    ensures
        filename@.len() == 0 ==> fails_with(r, "Wallet filename is required"@),
        filename@.len() != 0 && secret@.len() == 0 ==> fails_with(
            r,
            "Wallet password is required"@,
        ),
        filename@.len() != 0 && secret@.len() != 0 ==> r is Ok,
{
    if filename.is_empty() {
        return Err(ErrorResponse::new("Wallet filename is required"));
    }
    if secret.is_empty() {
        return Err(ErrorResponse::new("Wallet password is required"));
    }
    Ok(())
}

/// An open-wallet request after trimming.
#[derive(Clone, Debug, PartialEq)]
pub struct OpenRequest {
    pub filename: String,
    pub secret: String,
    pub payment_secret: Option<String>,
}

/// Trims the fields of an open-wallet request and refuses it without a file
/// name, then without a password. An empty payment secret counts as none.
pub fn plan_open(input: &OpenWalletInput) -> (r: Result<OpenRequest, ErrorResponse>)
    ensures
        trimmed(input.filename@).len() == 0 ==> fails_with(r, "Wallet filename is required"@),
        trimmed(input.filename@).len() != 0 && trimmed(input.secret@).len() == 0 ==> fails_with(
            r,
            "Wallet password is required"@,
        ),
        trimmed(input.filename@).len() != 0 && trimmed(input.secret@).len() != 0 ==> (r matches Ok(
            req,
        ) && req.filename@ == trimmed(input.filename@) && req.secret@ == trimmed(input.secret@)
            && opt_view(req.payment_secret) == nonempty_trimmed(input.payment_secret)),
{
    let filename = trim(input.filename.as_str());
    let secret = trim(input.secret.as_str());
    let payment_secret = trimmed_secret(&input.payment_secret);
    check_password_request(filename, secret)?;
    Ok(OpenRequest { filename: filename.to_owned(), secret: secret.to_owned(), payment_secret })
}

/// A create-wallet request after trimming.
#[derive(Clone, Debug, PartialEq)]
pub struct CreatePlan {
    pub secret: String,
    pub filename: String,
    pub payment_secret: Option<String>,
}

/// A request to create a wallet needs a password and then a file name.
pub fn check_create_request(secret: &str, filename: &str) -> (r: Result<(), ErrorResponse>)
    ensures
        secret@.len() == 0 ==> fails_with(r, "Wallet password is required"@),
        secret@.len() != 0 && filename@.len() == 0 ==> fails_with(
            r,
            "Wallet filename is required"@,
        ),
        secret@.len() != 0 && filename@.len() != 0 ==> r is Ok,
{
    if secret.is_empty() {
        return Err(ErrorResponse::new("Wallet password is required"));
    }
    if filename.is_empty() {
        return Err(ErrorResponse::new("Wallet filename is required"));
    }
    Ok(())
}

/// Trims the fields of a create-wallet request and refuses it without a
/// password, then without a file name. An empty payment secret counts as none.
pub fn plan_create(input: &CreateWalletInput) -> (r: Result<CreatePlan, ErrorResponse>)
    ensures
        trimmed(input.secret@).len() == 0 ==> fails_with(r, "Wallet password is required"@),
        trimmed(input.secret@).len() != 0 && trimmed(input.filename@).len() == 0 ==> fails_with(
            r,
            "Wallet filename is required"@,
        ),
        trimmed(input.secret@).len() != 0 && trimmed(input.filename@).len() != 0 ==> (r matches Ok(
            p,
        ) && p.secret@ == trimmed(input.secret@) && p.filename@ == trimmed(input.filename@)
            && opt_view(p.payment_secret) == nonempty_trimmed(input.payment_secret)),
{
    let secret = trim(input.secret.as_str());
    let filename = trim(input.filename.as_str());
    let payment_secret = trimmed_secret(&input.payment_secret);
    check_create_request(secret, filename)?;
    Ok(CreatePlan { secret: secret.to_owned(), filename: filename.to_owned(), payment_secret })
}

/// A checked import request: the recovery phrase as the wallet stores it and
/// the payment secret it keeps, if any.
#[derive(Clone, Debug, PartialEq)]
pub struct ImportPlan {
    pub phrase: String,
    pub secret: String,
    pub filename: String,
    pub payment_secret: Option<String>,
}

/// The error with which an import request is refused, if it is.
pub open spec fn import_refusal(input: ImportWalletInput) -> Option<Seq<char>> {
    let m = trimmed(input.mnemonic@);
    if input.secret@.len() == 0 {
        Some("Wallet password is required"@)
    } else if m.len() == 0 {
        Some("Mnemonic is required"@)
    } else if input.filename@.len() == 0 {
        Some("Wallet filename is required"@)
    } else if word_count(m) != 12 && word_count(m) != 24 {
        Some("Mnemonic must be exactly 12 or 24 words"@)
    } else if bip39_parse(m) is None {
        Some("Invalid mnemonic format"@)
    } else {
        None
    }
}

/// Checks an import request: a password, a recovery phrase (trimmed), a file
/// name, a phrase of 12 or 24 words that BIP-39 accepts. The payment secret
/// is trimmed and kept when something is left.
pub fn plan_import(input: &ImportWalletInput) -> (r: Result<ImportPlan, ErrorResponse>)
    ensures
        import_refusal(*input) matches Some(msg) ==> fails_with(r, msg),
        import_refusal(*input) is None ==> (r matches Ok(p) && Some(p.phrase@) == parsed_phrase(
            trimmed(input.mnemonic@),
        ) && p.secret@ == input.secret@ && p.filename@ == input.filename@ && opt_view(
            p.payment_secret,
        ) == nonempty_trimmed(input.payment_secret)),
{
    let mnemonic = trim(input.mnemonic.as_str());
    if input.secret.as_str().is_empty() {
        return Err(ErrorResponse::new("Wallet password is required"));
    }
    if mnemonic.is_empty() {
        return Err(ErrorResponse::new("Mnemonic is required"));
    }
    if input.filename.as_str().is_empty() {
        return Err(ErrorResponse::new("Wallet filename is required"));
    }
    let words = count_words(mnemonic);
    if words != 12 && words != 24 {
        return Err(ErrorResponse::new("Mnemonic must be exactly 12 or 24 words"));
    }
    let phrase = match normalized_phrase(mnemonic) {
        Some(p) => p,
        None => {
            return Err(ErrorResponse::new("Invalid mnemonic format"));
        },
    };
    Ok(
        ImportPlan {
            phrase,
            secret: input.secret.clone(),
            filename: input.filename.clone(),
            payment_secret: trimmed_secret(&input.payment_secret),
        },
    )
}

/// An import request with a password, a file name, and a phrase of 12 or 24
/// words that BIP-39 accepts once trimmed is refused for nothing: the command
/// goes on to import it.
pub proof fn lemma_valid_import_accepted(input: ImportWalletInput)
    requires
        input.secret@.len() > 0,
        input.filename@.len() > 0,
        bip39_parse(trimmed(input.mnemonic@)) is Some,
        word_count(trimmed(input.mnemonic@)) == 12 || word_count(trimmed(input.mnemonic@)) == 24,
    ensures
        import_refusal(input) is None,
{
    lemma_trim_keeps_word_count(input.mnemonic@);
    if trimmed(input.mnemonic@).len() == 0 {
        assert(word_count(trimmed(input.mnemonic@)) == 0);
    }
}

/// What the import form lets through, the import command refuses at most for
/// a phrase that BIP-39 does not accept: the form's checks of the password,
/// the phrase and its word count, and the file name cover the command's.
pub proof fn lemma_import_form_covers_command(input: ImportWalletInput)
    requires
        import_form_refusal(input.mnemonic@, input.secret@, input.filename@) is None,
    ensures
        import_refusal(input) is None || import_refusal(input) == Some("Invalid mnemonic format"@),
{
    lemma_trim_keeps_word_count(input.mnemonic@);
}

/// The error with which the 24-word import command refuses a request.
pub open spec fn legacy_import_refusal(mnemonic: Seq<char>, secret: Seq<char>, filename: Seq<char>) -> Option<Seq<char>> {
    if secret.len() == 0 {
        Some("Wallet password is required"@)
    } else if mnemonic.len() == 0 {
        Some("Mnemonic is required"@)
    } else if filename.len() == 0 {
        Some("Wallet filename is required"@)
    } else if bip39_parse(mnemonic) is None {
        Some("Invalid mnemonic: Must be 24 words"@)
    } else if bip39_parse(mnemonic)->0.len() != 24 {
        Some("Mnemonic must be 24 words"@)
    } else {
        None
    }
}

/// The checks of the import command that takes only 24-word phrases:
/// gives the phrase as the wallet stores it.
pub fn plan_legacy_import(mnemonic: &str, secret: &str, filename: &str) -> (r: Result<
    String,
    ErrorResponse,
>)
    ensures
        legacy_import_refusal(mnemonic@, secret@, filename@) matches Some(msg) ==> fails_with(
            r,
            msg,
        ),
        legacy_import_refusal(mnemonic@, secret@, filename@) is None ==> (r matches Ok(p) && Some(
            p@,
        ) == parsed_phrase(mnemonic@)),
{
    if secret.is_empty() {
        return Err(ErrorResponse::new("Wallet password is required"));
    }
    if mnemonic.is_empty() {
        return Err(ErrorResponse::new("Mnemonic is required"));
    }
    if filename.is_empty() {
        return Err(ErrorResponse::new("Wallet filename is required"));
    }
    let count = match parsed_word_count(mnemonic) {
        Some(n) => n,
        None => {
            return Err(ErrorResponse::new("Invalid mnemonic: Must be 24 words"));
        },
    };
    if count != 24 {
        return Err(ErrorResponse::new("Mnemonic must be 24 words"));
    }
    match normalized_phrase(mnemonic) {
        Some(p) => Ok(p),
        None => Err(ErrorResponse::new("Invalid mnemonic: Must be 24 words")),
    }
}

/// The answer to a successful create: where the wallet was written and the
/// recovery phrase to show the user.
pub fn created_message(path: &str, mnemonic: &str) -> (r: String)
    ensures
        r@ == "Success: Wallet created at "@ + path@ + " with mnemonic: "@ + mnemonic@,
{
    let head = concat3("Success: Wallet created at ", path, " with mnemonic: ");
    concat2(head.as_str(), mnemonic)
}

/// The answer to a successful open.
pub fn opened_message(path: &str) -> (r: String)
    ensures
        r@ == "Success: Wallet opened from "@ + path@,
{
    concat2("Success: Wallet opened from ", path)
}

/// The answer to a successful import.
pub fn imported_message(path: &str) -> (r: String)
    ensures
        r@ == "Success: Wallet imported at "@ + path@,
{
    concat2("Success: Wallet imported at ", path)
}

/// The error text of the wallet store reads as a wrong password.
pub open spec fn reads_as_wrong_password(err: Seq<char>) -> bool {
    let lower = unicode_lowercase(err);
    has_substring(lower, "decrypt"@) || has_substring(lower, "crypto"@) || has_substring(
        lower,
        "invalid key"@,
    )
}

/// How the open command that takes its fields one by one reports a failure of
/// the wallet store: as a wrong password when the error's lowercase text speaks
/// of decryption, of crypto or of an invalid key, else as `context` followed
/// by the error.
pub fn classify_open_failure(err: &str, context: &str) -> (r: String)
    ensures
        reads_as_wrong_password(err@) ==> r@ == "Incorrect password provided"@,
        !reads_as_wrong_password(err@) ==> r@ == context@ + err@,
{
    let lower = to_lowercase(err);
    if contains_str(lower.as_str(), "decrypt") || contains_str(lower.as_str(), "crypto")
        || contains_str(lower.as_str(), "invalid key") {
        "Incorrect password provided".to_owned()
    } else {
        concat2(context, err)
    }
}

// ---------------------------------------------------------------------------
// The open wallet and its files
// ---------------------------------------------------------------------------

/// The check before the balance and address commands: `open` says whether a
/// wallet was loaded (`None` when none was) and whether it is open.
pub fn check_wallet_ready(open: Option<bool>) -> (r: Result<(), ErrorResponse>)
    ensures
        open is None ==> fails_with(r, "No wallet initialized"@),
        open == Some(false) ==> fails_with(r, "Wallet is not open"@),
        open == Some(true) ==> r is Ok,
{
    match open {
        None => Err(ErrorResponse::new("No wallet initialized")),
        Some(false) => Err(ErrorResponse::new("Wallet is not open")),
        Some(true) => Ok(()),
    }
}

/// Whether the loaded wallet is open: `open` is `None` when no wallet was
/// loaded, which is an error.
pub fn wallet_open_state(open: Option<bool>) -> (r: Result<bool, ErrorResponse>)
    ensures
        open is None ==> fails_with(r, "No wallet initialized"@),
        open matches Some(b) ==> r == Ok::<bool, ErrorResponse>(b),
{
    match open {
        None => Err(ErrorResponse::new("No wallet initialized")),
        Some(b) => Ok(b),
    }
}

/// The check before the history and payment commands, which answer a missing
/// wallet as a closed one.
pub fn check_wallet_open(open: Option<bool>) -> (r: Result<(), ErrorResponse>)
    ensures
        open != Some(true) ==> fails_with(r, "Wallet is not open"@),
        open == Some(true) ==> r is Ok,
{
    match open {
        Some(true) => Ok(()),
        _ => Err(ErrorResponse::new("Wallet is not open")),
    }
}

/// A wallet file to open or verify must exist.
pub fn check_wallet_file(exists: bool) -> (r: Result<(), ErrorResponse>)
    ensures
        !exists ==> fails_with(r, "Wallet file does not exist"@),
        exists ==> r is Ok,
{
    if exists {
        Ok(())
    } else {
        Err(ErrorResponse::new("Wallet file does not exist"))
    }
}

/// Opening a wallet needs a password that decrypts its file.
pub fn check_open_password(accepted: bool) -> (r: Result<(), ErrorResponse>)
    ensures
        !accepted ==> fails_with(r, "Incorrect wallet password"@),
        accepted ==> r is Ok,
{
    if accepted {
        Ok(())
    } else {
        Err(ErrorResponse::new("Incorrect wallet password"))
    }
}

/// Password verification answers a password that does not decrypt the file.
pub fn check_verified_password(accepted: bool) -> (r: Result<(), ErrorResponse>)
    ensures
        !accepted ==> fails_with(r, "Incorrect password provided"@),
        accepted ==> r is Ok,
{
    if accepted {
        Ok(())
    } else {
        Err(ErrorResponse::new("Incorrect password provided"))
    }
}

// ---------------------------------------------------------------------------
// Listing wallets and addresses
// ---------------------------------------------------------------------------

/// `s` ends with `suffix`.
pub open spec fn ends_with(s: Seq<char>, suffix: Seq<char>) -> bool {
    suffix.len() <= s.len() && s.subrange(s.len() - suffix.len(), s.len() as int) == suffix
}

/// The wallet listed for a file of the application folder: files named
/// `<name>.wallet` are wallets called `<name>`; other files are not wallets.
pub fn wallet_entry(file_name: &str, path: &str) -> (r: Option<WalletFile>)
    ensures
        ends_with(file_name@, ".wallet"@) ==> (r matches Some(w) && w.name@ == file_name@.take(
            file_name@.len() - 7,
        ) && w.path@ == path@),
        !ends_with(file_name@, ".wallet"@) ==> r is None,
{
    proof {
        reveal_strlit(".wallet");
    }
    let n = file_name.unicode_len();
    if n < 7 {
        return None;
    }
    let tail = file_name.substring_char(n - 7, n);
    if crate::text::same_text(tail, ".wallet") {
        Some(WalletFile { name: file_name.substring_char(0, n - 7).to_owned(), path: path.to_owned() })
    } else {
        None
    }
}

/// The single account the wallet shows, with its two addresses.
pub fn default_account_address(receive_address: String, change_address: String) -> (r:
    WalletAddress)
    ensures
        r.account_name@ == "default-account"@,
        r.account_index == 0,
        r.receive_address == receive_address,
        r.change_address == change_address,
{
    WalletAddress {
        account_name: "default-account".to_owned(),
        account_index: 0,
        receive_address,
        change_address,
    }
}

// ---------------------------------------------------------------------------
// Sending
// ---------------------------------------------------------------------------

/// The sum of `amounts`.
pub open spec fn sum_of(amounts: Seq<u64>) -> nat
    decreases amounts.len(),
{
    if amounts.len() == 0 {
        0
    } else {
        sum_of(amounts.drop_last()) + amounts.last() as nat
    }
}

proof fn lemma_sum_prefix(s: Seq<u64>, i: int)
    requires
        0 <= i <= s.len(),
    ensures
        sum_of(s.take(i)) <= sum_of(s),
    decreases s.len() - i,
{
    if i < s.len() {
        lemma_sum_prefix(s, i + 1);
        assert(s.take(i + 1).drop_last() =~= s.take(i));
    } else {
        assert(s.take(i) =~= s);
    }
}

/// What the spendable outputs add up to.
pub fn total_available(amounts: &Vec<u64>) -> (r: u64)
    requires
        sum_of(amounts@) <= u64::MAX,
    ensures
        r == sum_of(amounts@),
{
    let mut total: u64 = 0;
    let mut i: usize = 0;
    while i < amounts.len()
        invariant
            i <= amounts@.len(),
            sum_of(amounts@) <= u64::MAX,
            total == sum_of(amounts@.take(i as int)),
        decreases amounts@.len() - i,
    {
        proof {
            let t = amounts@.take(i + 1);
            assert(t.drop_last() =~= amounts@.take(i as int));
            lemma_sum_prefix(amounts@, i + 1);
        }
        total = total + amounts[i];
        i = i + 1;
    }
    proof {
        assert(amounts@.take(amounts@.len() as int) =~= amounts@);
    }
    total
}

/// `total_available`, or nothing when the amounts add up to more than a
/// `u64` holds.
pub fn checked_total_available(amounts: &Vec<u64>) -> (r: Option<u64>)
    ensures
        r is None <==> sum_of(amounts@) > u64::MAX,
        r matches Some(v) ==> v == sum_of(amounts@),
{
    let mut total: u64 = 0;
    let mut i: usize = 0;
    while i < amounts.len()
        invariant
            i <= amounts@.len(),
            total == sum_of(amounts@.take(i as int)),
        decreases amounts@.len() - i,
    {
        proof {
            let t = amounts@.take(i + 1);
            assert(t.drop_last() =~= amounts@.take(i as int));
        }
        match total.checked_add(amounts[i]) {
            Some(v) => total = v,
            None => {
                proof {
                    lemma_sum_prefix(amounts@, i + 1);
                }
                return None;
            },
        }
        i = i + 1;
    }
    proof {
        assert(amounts@.take(amounts@.len() as int) =~= amounts@);
    }
    Some(total)
}

/// The error of a payment larger than what the wallet holds.
pub open spec fn insufficient_funds(amount: u64, available: u64) -> Seq<char> {
    "Insufficient funds: need "@ + decimal(amount as nat) + " VENI, have "@ + decimal(
        available as nat,
    )
}

/// A payment of `amount` veni needs at least that much available.
pub fn check_funds(available: u64, amount: u64) -> (r: Result<(), ErrorResponse>)
    ensures
        available < amount ==> fails_with(r, insufficient_funds(amount, available)),
        available >= amount ==> r is Ok,
{
    if available < amount {
        let need = decimal_string(amount);
        let have = decimal_string(available);
        let head = concat3("Insufficient funds: need ", need.as_str(), " VENI, have ");
        return Err(ErrorResponse { error: concat2(head.as_str(), have.as_str()) });
    }
    Ok(())
}

/// An encrypted key can only sign with a payment secret.
pub fn check_signing_secret(encrypted: bool, payment_secret: &Option<String>) -> (r: Result<
    (),
    ErrorResponse,
>)
    ensures
        encrypted && payment_secret is None ==> fails_with(
            r,
            "\u{1f510} Wallet is encrypted! You MUST enter your Payment Secret to send."@,
        ),
        !(encrypted && payment_secret is None) ==> r is Ok,
{
    if encrypted && payment_secret.is_none() {
        return Err(
            ErrorResponse::new(
                "\u{1f510} Wallet is encrypted! You MUST enter your Payment Secret to send.",
            ),
        );
    }
    Ok(())
}

/// The identifier reported for a payment: that of the last transaction
/// submitted, or nothing when none was.
pub fn last_submitted(ids: &Vec<String>) -> (r: String)
    ensures
        ids@.len() > 0 ==> r@ == ids@.last()@,
        ids@.len() == 0 ==> r@.len() == 0,
{
    if ids.len() > 0 {
        ids[ids.len() - 1].clone()
    } else {
        String::new()
    }
}

// ---------------------------------------------------------------------------
// The node
// ---------------------------------------------------------------------------

/// The node the wallet last reached, kept so that it is resolved once.
#[derive(Clone, Debug, PartialEq)]
pub struct NodeCache {
    pub url: Option<String>,
}

impl Default for NodeCache {
    fn default() -> (c: NodeCache)
        ensures
            c.url is None,
    {
        NodeCache { url: None }
    }
}

/// The error of a node that could not be reached.
pub open spec fn node_unreachable() -> Seq<char> {
    "Failed to connect to Vecno node. Check your internet connection or try again later."@
}

/// The URL that `cached_node` answers for `c`.
pub open spec fn cached_url(c: NodeCache) -> Option<Seq<char>> {
    opt_view(c.url)
}

/// The cache after a resolution that found `resolved`.
pub open spec fn after_resolution(resolved: Option<String>) -> NodeCache {
    NodeCache { url: resolved }
}

impl NodeCache {
    /// The node already known, if any.
    pub fn cached_node(&self) -> (r: Option<NodeInfo>)
        ensures
            match r {
                Some(info) => cached_url(*self) == Some(info.url@),
                None => cached_url(*self) is None,
            },
    {
        match &self.url {
            Some(u) => Some(NodeInfo { url: u.clone() }),
            None => None,
        }
    }

    /// Records the outcome of resolving a node: the URL found is kept and
    /// returned; when none was found the cache is cleared and the command
    /// fails.
    pub fn record_resolution(&mut self, resolved: Option<String>) -> (r: Result<NodeInfo, ErrorResponse>)
        ensures
            *final(self) == after_resolution(resolved),
            resolved matches Some(u) ==> (r matches Ok(info) && info.url == u),
            resolved is None ==> fails_with(r, node_unreachable()),
    {
        match resolved {
            Some(u) => {
                self.url = Some(u.clone());
                Ok(NodeInfo { url: u })
            },
            None => {
                self.url = None;
                Err(
                    ErrorResponse::new(
                        "Failed to connect to Vecno node. Check your internet connection or try again later.",
                    ),
                )
            },
        }
    }
}

/// Once a node is resolved, the cache answers it; after a failed resolution it
/// answers nothing, so the next request resolves again.
pub proof fn lemma_resolution_is_cached(url: String)
    ensures
        cached_url(after_resolution(Some(url))) == Some(url@),
        cached_url(after_resolution(None)) is None,
{
}

} // verus!
