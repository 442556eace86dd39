//! The checks the user interface makes on what the user typed before it asks
//! the backend for anything, and the notifications it raises for each problem.
use vstd::prelude::*;
use vstd::utf8::encode_utf8;
use crate::models::ToastKind;
use crate::mnemonic::opt_view;
use crate::text::{
    chars_of, count_words, first_word, first_word_of, join_spaced, join_with_spaces, same_text,
    to_lowercase, trim, trimmed, unicode_lowercase, utf8_len_exceeds, views, word_count,
};

verus! {

/// Characters a wallet file name may not hold.
pub open spec fn forbidden_in_filename(c: char) -> bool {
    c == '<' || c == '>' || c == ':' || c == '"' || c == '/' || c == '\\' || c == '|' || c == '?'
        || c == '*' || c == ','
}

/// A usable wallet file name: not empty, none of the forbidden characters,
/// at most 255 bytes of UTF-8.
pub open spec fn valid_filename(s: Seq<char>) -> bool {
    &&& s.len() > 0
    &&& forall|i: int| 0 <= i < s.len() ==> !forbidden_in_filename(#[trigger] s[i])
    &&& encode_utf8(s).len() <= 255
}

/// A password long enough: at least 8 bytes of UTF-8.
pub open spec fn valid_password(s: Seq<char>) -> bool {
    encode_utf8(s).len() >= 8
}

/// Whether `filename` can name a wallet file.
pub fn is_valid_filename(filename: &str) -> (b: bool)
    ensures
        b == valid_filename(filename@),
{
    let v = chars_of(filename);
    let mut i: usize = 0;
    while i < v.len()
        invariant
            i <= v@.len(),
            v@ == filename@,
            forall|k: int| 0 <= k < i ==> !forbidden_in_filename(#[trigger] v@[k]),
        decreases v@.len() - i,
    {
        let c = v[i];
        if c == '<' || c == '>' || c == ':' || c == '"' || c == '/' || c == '\\' || c == '|' || c
            == '?' || c == '*' || c == ',' {
            return false;
        }
        i = i + 1;
    }
    !filename.is_empty() && !utf8_len_exceeds(filename, 255)
}

/// Whether `secret` is long enough to protect a wallet.
pub fn is_valid_password(secret: &str) -> (b: bool)
    ensures
        b == valid_password(secret@),
{
    utf8_len_exceeds(secret, 7)
}

/// `r` is the notification `msg`.
pub open spec fn refused_with(r: Result<(), String>, msg: Seq<char>) -> bool {
    r matches Err(e) && e@ == msg
}

/// The check before opening a wallet: one chosen, then a password, then one
/// long enough.
pub fn check_open_form(filename: &str, secret: &str) -> (r: Result<(), String>)
    ensures
        filename@.len() == 0 ==> refused_with(r, "Select a Wallet"@),
        filename@.len() != 0 && secret@.len() == 0 ==> refused_with(
            r,
            "Wallet password is required"@,
        ),
        filename@.len() != 0 && secret@.len() != 0 && !valid_password(secret@) ==> refused_with(
            r,
            "Password must be at least 8 characters"@,
        ),
        filename@.len() != 0 && valid_password(secret@) ==> r is Ok,
{
    if filename.is_empty() {
        return Err("Select a Wallet".to_owned());
    }
    if secret.is_empty() {
        return Err("Wallet password is required".to_owned());
    }
    if !is_valid_password(secret) {
        return Err("Password must be at least 8 characters".to_owned());
    }
    Ok(())
}

/// The check before creating a wallet: a usable file name, then a password
/// long enough.
pub fn check_create_form(filename: &str, secret: &str) -> (r: Result<(), String>)
    ensures
        filename@.len() == 0 ==> refused_with(r, "Wallet filename is required"@),
        filename@.len() != 0 && !valid_filename(filename@) ==> refused_with(
            r,
            "Filename contains invalid characters or is too long"@,
        ),
        valid_filename(filename@) && secret@.len() == 0 ==> refused_with(
            r,
            "Wallet password is required"@,
        ),
        valid_filename(filename@) && secret@.len() != 0 && !valid_password(secret@) ==> refused_with(
            r,
            "Password must be at least 8 characters"@,
        ),
        valid_filename(filename@) && valid_password(secret@) ==> r is Ok,
{
    if filename.is_empty() {
        return Err("Wallet filename is required".to_owned());
    }
    if !is_valid_filename(filename) {
        return Err("Filename contains invalid characters or is too long".to_owned());
    }
    if secret.is_empty() {
        return Err("Wallet password is required".to_owned());
    }
    if !is_valid_password(secret) {
        return Err("Password must be at least 8 characters".to_owned());
    }
    Ok(())
}

/// The notification with which an import is refused, if it is.
pub open spec fn import_form_refusal(mnemonic: Seq<char>, secret: Seq<char>, filename: Seq<char>) -> Option<Seq<char>> {
    if mnemonic.len() == 0 {
        Some("Mnemonic phrase is required"@)
    } else if word_count(mnemonic) != 12 && word_count(mnemonic) != 24 {
        Some("Mnemonic must be 12 or 24 words"@)
    } else if secret.len() == 0 {
        Some("Wallet password is required"@)
    } else if !valid_password(secret) {
        Some("Password must be at least 8 characters"@)
    } else if filename.len() == 0 {
        Some("Wallet filename is required"@)
    } else if !valid_filename(filename) {
        Some("Filename contains invalid characters or is too long"@)
    } else {
        None
    }
}

/// The check before importing a wallet: a phrase of 12 or 24 words, a
/// password long enough, a usable file name.
pub fn check_import_form(mnemonic: &str, secret: &str, filename: &str) -> (r: Result<(), String>)
    ensures
        import_form_refusal(mnemonic@, secret@, filename@) matches Some(msg) ==> refused_with(r, msg),
        import_form_refusal(mnemonic@, secret@, filename@) is None ==> r is Ok,
{
    if mnemonic.is_empty() {
        return Err("Mnemonic phrase is required".to_owned());
    }
    let words = count_words(mnemonic);
    if words != 12 && words != 24 {
        return Err("Mnemonic must be 12 or 24 words".to_owned());
    }
    if secret.is_empty() {
        return Err("Wallet password is required".to_owned());
    }
    if !is_valid_password(secret) {
        return Err("Password must be at least 8 characters".to_owned());
    }
    if filename.is_empty() {
        return Err("Wallet filename is required".to_owned());
    }
    if !is_valid_filename(filename) {
        return Err("Filename contains invalid characters or is too long".to_owned());
    }
    Ok(())
}

/// Whether the import form may be submitted at all: every field filled, a
/// phrase of 12 or 24 words, a password long enough and a usable file name.
pub fn import_form_ready(filename: &str, password: &str, mnemonic: &str) -> (b: bool)
    ensures
        b == (filename@.len() != 0 && password@.len() != 0 && mnemonic@.len() != 0 && (word_count(
            mnemonic@,
        ) == 12 || word_count(mnemonic@) == 24) && valid_password(password@) && valid_filename(
            filename@,
        )),
{
    let words = count_words(mnemonic);
    !(filename.is_empty() || password.is_empty() || mnemonic.is_empty() || (words != 12 && words
        != 24) || !is_valid_password(password) || !is_valid_filename(filename))
}

/// The check before sending: a recipient, an amount above zero, an open wallet.
pub fn check_send_request(to_address: &str, amount_veni: u64, wallet_open: bool) -> (r: Result<
    (),
    String,
>)
    ensures
        to_address@.len() == 0 ==> refused_with(r, "Recipient address is required"@),
        to_address@.len() != 0 && amount_veni == 0 ==> refused_with(
            r,
            "Amount must be greater than 0"@,
        ),
        to_address@.len() != 0 && amount_veni != 0 && !wallet_open ==> refused_with(
            r,
            "No wallet open"@,
        ),
        to_address@.len() != 0 && amount_veni != 0 && wallet_open ==> r is Ok,
{
    if to_address.is_empty() {
        return Err("Recipient address is required".to_owned());
    }
    if amount_veni == 0 {
        return Err("Amount must be greater than 0".to_owned());
    }
    if !wallet_open {
        return Err("No wallet open".to_owned());
    }
    Ok(())
}

// ---------------------------------------------------------------------------
// Payment secrets typed word by word
// ---------------------------------------------------------------------------

/// How many words a payment secret may have.
pub const MAX_SECRET_WORDS: usize = 24;

/// The word kept from what the user typed in one word slot: its first word,
/// in lowercase.
pub fn secret_word(raw: &str) -> (r: String)
    ensures
        r@ == unicode_lowercase(trimmed(first_word(raw@))),
{
    let w = first_word_of(raw);
    to_lowercase(trim(w.as_str()))
}

/// One more empty word slot, while there are fewer than `MAX_SECRET_WORDS`.
pub fn with_added_slot(words: &Vec<String>) -> (r: Vec<String>)
    ensures
        words@.len() < MAX_SECRET_WORDS ==> r@.len() == words@.len() + 1 && r@.take(
            words@.len() as int,
        ) == words@ && r@.last()@.len() == 0,
        words@.len() >= MAX_SECRET_WORDS ==> r@ == words@,
{
    let mut r = words.clone();
    if r.len() < MAX_SECRET_WORDS {
        r.push(String::new());
        proof {
            assert(r@.take(words@.len() as int) =~= words@);
        }
    }
    r
}

/// The slots after the user typed `word` into slot `idx`; a slot that does
/// not exist changes nothing.
pub fn with_slot_set(words: &Vec<String>, idx: usize, word: String) -> (r: Vec<String>)
    ensures
        idx < words@.len() ==> r@ == words@.update(idx as int, word),
        idx >= words@.len() ==> r@ == words@,
{
    let mut r = words.clone();
    proof {
        assert(r@ =~= words@);
    }
    if idx < r.len() {
        r.set(idx, word);
    }
    r
}

/// What the user does to the word slots of a payment secret.
pub enum SlotEvent {
    /// Clicks `+ Add Word`.
    AddWord,
    /// Types `raw` into slot `idx`.
    EditWord(int, Seq<char>),
    /// Ticks (`true`) or clears (`false`) the box that shows the secret.
    ShowSecret(bool),
}

/// The slots as the user starts with them: one, empty.
pub open spec fn initial_slots() -> Seq<Seq<char>> {
    seq![Seq::<char>::empty()]
}

/// The slots after one event: a new empty slot while there are fewer than
/// `MAX_SECRET_WORDS`; in an existing slot the first word typed, lowercased,
/// and no other slot changed; back to one empty slot when the box is cleared.
pub open spec fn slot_step(words: Seq<Seq<char>>, e: SlotEvent) -> Seq<Seq<char>> {
    match e {
        SlotEvent::AddWord => if words.len() < MAX_SECRET_WORDS {
            words.push(Seq::empty())
        } else {
            words
        },
        SlotEvent::EditWord(idx, raw) => if 0 <= idx < words.len() {
            words.update(idx, unicode_lowercase(trimmed(first_word(raw))))
        } else {
            words
        },
        SlotEvent::ShowSecret(checked) => if checked {
            words
        } else {
            initial_slots()
        },
    }
}

/// The slots after `events`, from the initial ones.
pub open spec fn slots_after(events: Seq<SlotEvent>) -> Seq<Seq<char>>
    decreases events.len(),
{
    if events.len() == 0 {
        initial_slots()
    } else {
        slot_step(slots_after(events.drop_last()), events.last())
    }
}

/// Whatever the user does, a payment secret has between one and
/// `MAX_SECRET_WORDS` word slots.
pub proof fn lemma_slots_stay_bounded(events: Seq<SlotEvent>)
    ensures
        1 <= slots_after(events).len() <= MAX_SECRET_WORDS,
    decreases events.len(),
{
    if events.len() > 0 {
        lemma_slots_stay_bounded(events.drop_last());
    }
}

/// The slots after the user typed `raw` into slot `idx`.
pub fn edit_slot(words: &Vec<String>, idx: usize, raw: &str) -> (r: Vec<String>)
    ensures
        views(r@) == slot_step(views(words@), SlotEvent::EditWord(idx as int, raw@)),
{
    let r = with_slot_set(words, idx, secret_word(raw));
    proof {
        if idx < words@.len() {
            assert(views(r@) =~= views(words@).update(
                idx as int,
                unicode_lowercase(trimmed(first_word(raw@))),
            ));
        } else {
            assert(views(r@) =~= views(words@));
        }
    }
    r
}

/// The slots after one more was asked for.
pub fn add_slot(words: &Vec<String>) -> (r: Vec<String>)
    ensures
        views(r@) == slot_step(views(words@), SlotEvent::AddWord),
{
    let r = with_added_slot(words);
    proof {
        if words@.len() < MAX_SECRET_WORDS {
            assert(views(r@) =~= views(words@).push(Seq::empty())) by {
                assert forall|i: int| 0 <= i < words@.len() implies r@[i] == words@[i] by {
                    assert(r@.take(words@.len() as int)[i] == r@[i]);
                }
                assert(r@[words@.len() as int] == r@.last());
                assert(r@.last()@ =~= Seq::<char>::empty());
            }
        } else {
            assert(views(r@) =~= views(words@));
        }
    }
    r
}

/// The slots after the box that shows the secret was ticked or cleared.
pub fn show_secret_slots(words: &Vec<String>, checked: bool) -> (r: Vec<String>)
    ensures
        views(r@) == slot_step(views(words@), SlotEvent::ShowSecret(checked)),
{
    if checked {
        let r = words.clone();
        proof {
            assert(r@ =~= words@);
        }
        r
    } else {
        let r = vec![String::new()];
        proof {
            assert(views(r@) =~= initial_slots());
        }
        r
    }
}

/// Some slot at `from` or after holds a word.
pub open spec fn filled_from(words: Seq<String>, from: int) -> bool {
    exists|k: int| from <= k < words.len() && #[trigger] words[k]@.len() > 0
}

/// Whether a slot at `from` or after holds a word.
fn has_word_from(words: &Vec<String>, from: usize) -> (b: bool)
    ensures
        b == filled_from(words@, from as int),
{
    let mut i: usize = from;
    while i < words.len()
        invariant
            from <= i,
            forall|k: int| from <= k < i && k < words@.len() ==> #[trigger] words@[k]@.len() == 0,
        decreases words@.len() - i,
    {
        if !words[i].as_str().is_empty() {
            return true;
        }
        i = i + 1;
    }
    false
}

/// Whether any slot holds a word: the create form then says that a custom
/// secret will be used.
pub fn any_word_filled(words: &Vec<String>) -> (b: bool)
    ensures
        b == filled_from(words@, 0),
{
    has_word_from(words, 0)
}

/// Whether the create form draws its word grid extended: more than one slot,
/// and some slot filled in.
pub fn create_grid_extended(words: &Vec<String>) -> (b: bool)
    ensures
        b == (words@.len() > 1 && filled_from(words@, 0)),
{
    has_word_from(words, 0) && words.len() > 1
}

/// Whether the send form draws its word grid extended: a slot after the
/// first filled in.
pub fn send_grid_extended(words: &Vec<String>) -> (b: bool)
    ensures
        b == filled_from(words@, 1),
{
    has_word_from(words, 1)
}

/// The words that are filled in, in order.
pub open spec fn filled(words: Seq<String>) -> Seq<String> {
    words.filter(|w: String| w@.len() > 0)
}

/// The filled-in words of `words`, in order.
pub fn filled_words(words: &Vec<String>) -> (r: Vec<String>)
    ensures
        r@ == filled(words@),
{
    let mut r: Vec<String> = Vec::new();
    let mut i: usize = 0;
    while i < words.len()
        invariant
            i <= words@.len(),
            r@ == filled(words@.take(i as int)),
        decreases words@.len() - i,
    {
        proof {
            let t = words@.take(i + 1);
            assert(t.drop_last() =~= words@.take(i as int));
            assert(t.last() == words@[i as int]);
            reveal(Seq::filter);
        }
        if !words[i].as_str().is_empty() {
            r.push(words[i].clone());
        }
        i = i + 1;
    }
    proof {
        assert(words@.take(words@.len() as int) =~= words@);
    }
    r
}

/// The payment secret that a form passes on: its filled-in words joined by
/// spaces, when the secret is enabled and some word is filled in.
pub open spec fn form_payment_secret(enabled: bool, words: Seq<String>) -> Option<Seq<char>> {
    if enabled && filled(words).len() > 0 {
        Some(join_with_spaces(views(filled(words))))
    } else {
        None
    }
}

/// The notifications of the create form, in the order it raises them.
pub open spec fn create_form_problems(
    filename: Seq<char>,
    password: Seq<char>,
    secret_enabled: bool,
    words: Seq<String>,
) -> Seq<Seq<char>> {
    let name = trimmed(filename);
    let a = if name.len() == 0 {
        seq!["Filename is required"@]
    } else if !valid_filename(name) {
        seq!["Invalid filename. Use letters, numbers, dashes."@]
    } else {
        Seq::empty()
    };
    let b = if password.len() == 0 {
        seq!["Password is required"@]
    } else if !valid_password(password) {
        seq!["Password too weak. Use 8+ chars, mix types."@]
    } else {
        Seq::empty()
    };
    let c = if secret_enabled && filled(words).len() == 0 {
        seq!["Payment secret cannot be empty when enabled"@]
    } else {
        Seq::empty()
    };
    a + b + c
}

/// The create form raises no problem for a file name that is usable once
/// trimmed, a password long enough, and a payment secret that is off or has a
/// word: it refuses nothing beyond what `valid_filename` and `valid_password`
/// refuse.
pub proof fn lemma_create_form_accepts_valid_input(
    filename: Seq<char>,
    password: Seq<char>,
    secret_enabled: bool,
    words: Seq<String>,
)
    requires
        valid_filename(trimmed(filename)),
        valid_password(password),
        !(secret_enabled && filled(words).len() == 0),
    ensures
        create_form_problems(filename, password, secret_enabled, words).len() == 0,
{
    assert(password.len() > 0) by {
        if password.len() == 0 {
            assert(password =~= Seq::<char>::empty());
            assert(vstd::utf8::encode_utf8(password).len() == 0);
        }
    }
}

/// A create request that the form passes on.
#[derive(Clone, Debug, PartialEq)]
pub struct CreateRequest {
    pub filename: String,
    pub password: String,
    pub payment_secret: Option<String>,
}

/// The views of a list of notifications.
pub open spec fn texts(list: Seq<String>) -> Seq<Seq<char>> {
    list.map_values(|s: String| s@)
}

/// Submits the create form: the trimmed file name, the password and the
/// payment secret when every check passes, else every problem found.
pub fn submit_create_form(
    filename: &str,
    password: &str,
    secret_enabled: bool,
    words: &Vec<String>,
) -> (r: Result<CreateRequest, Vec<String>>)
    ensures
        match r {
            Ok(req) => create_form_problems(filename@, password@, secret_enabled, words@).len() == 0
                && req.filename@ == trimmed(filename@) && req.password@ == password@ && opt_view(
                req.payment_secret,
            ) == form_payment_secret(secret_enabled, words@),
            Err(problems) => problems@.len() > 0 && texts(problems@) == create_form_problems(
                filename@,
                password@,
                secret_enabled,
                words@,
            ),
        },
{
    let mut problems: Vec<String> = Vec::new();
    let name = trim(filename);
    if name.is_empty() {
        problems.push("Filename is required".to_owned());
    } else if !is_valid_filename(name) {
        problems.push("Invalid filename. Use letters, numbers, dashes.".to_owned());
    }
    let ghost after_name = problems@;
    if password.is_empty() {
        problems.push("Password is required".to_owned());
    } else if !is_valid_password(password) {
        problems.push("Password too weak. Use 8+ chars, mix types.".to_owned());
    }
    let ghost after_password = problems@;
    let kept = filled_words(words);
    let payment_secret = if secret_enabled && kept.len() > 0 {
        Some(join_spaced(&kept))
    } else {
        None
    };
    if secret_enabled && kept.len() == 0 {
        problems.push("Payment secret cannot be empty when enabled".to_owned());
    }
    proof {
        let expected = create_form_problems(filename@, password@, secret_enabled, words@);
        assert(texts(problems@) =~= expected);
    }
    if problems.len() > 0 {
        return Err(problems);
    }
    Ok(CreateRequest { filename: name.to_owned(), password: password.to_owned(), payment_secret })
}

/// What the send form does when submitted: the notifications it raises, in
/// order, and the payment it asks for when the form holds no problem.
#[derive(Debug, PartialEq)]
pub struct SendSubmission {
    pub toasts: Vec<(String, ToastKind)>,
    pub payment: Option<(String, u64, Option<String>)>,
}

/// The problems of the send form, in the order it reports them. `amount` is
/// the amount typed, trimmed; `parsed_amount` what it reads as in veni.
pub open spec fn send_form_problems(
    to: Seq<char>,
    amount: Seq<char>,
    parsed_amount: Option<u64>,
    secret_enabled: bool,
    words: Seq<String>,
) -> Seq<Seq<char>> {
    let a = if to.len() == 0 {
        seq!["Recipient address required"@]
    } else {
        Seq::empty()
    };
    let b = if amount.len() == 0 {
        seq!["Amount required"@]
    } else if !(parsed_amount matches Some(v) && v > 0) {
        seq!["Invalid amount"@]
    } else {
        Seq::empty()
    };
    let c = if secret_enabled && filled(words).len() == 0 {
        seq!["Payment secret enabled but empty"@]
    } else {
        Seq::empty()
    };
    a + b + c
}

/// The send form raises no problem for a recipient, any amount above zero
/// veni, and a payment secret that is off or has a word: every positive amount
/// may be sent, however small.
pub proof fn lemma_send_form_accepts_positive_amount(
    to: Seq<char>,
    amount: Seq<char>,
    v: u64,
    secret_enabled: bool,
    words: Seq<String>,
)
    requires
        to.len() > 0,
        amount.len() > 0,
        v > 0,
        !(secret_enabled && filled(words).len() == 0),
    ensures
        send_form_problems(to, amount, Some(v), secret_enabled, words).len() == 0,
{
}

/// The views of a list of notifications with their kinds.
pub open spec fn toast_views(list: Seq<(String, ToastKind)>) -> Seq<(Seq<char>, ToastKind)> {
    list.map_values(|t: (String, ToastKind)| (t.0@, t.1))
}

/// Every text of `msgs` as an error notification.
pub open spec fn as_errors(msgs: Seq<Seq<char>>) -> Seq<(Seq<char>, ToastKind)> {
    msgs.map_values(|m: Seq<char>| (m, ToastKind::Error))
}

/// Submits the send form. `to` and `amount` are what the user typed (the form
/// trims both); `parsed_amount` is what the trimmed amount reads as, in veni.
/// With problems it raises each as an error and asks for nothing; without, it
/// warns when paying one's own receive address, says the payment is on its
/// way, and asks for it.
pub fn submit_send_form(
    to: &str,
    amount: &str,
    parsed_amount: Option<u64>,
    secret_enabled: bool,
    words: &Vec<String>,
    own_receive_address: &str,
) -> (r: SendSubmission)
    ensures
        ({
            let problems = send_form_problems(
                trimmed(to@),
                trimmed(amount@),
                parsed_amount,
                secret_enabled,
                words@,
            );
            if problems.len() > 0 {
                toast_views(r.toasts@) == as_errors(problems) && r.payment is None
            } else {
                &&& r.payment matches Some(p) && p.0@ == trimmed(to@) && parsed_amount == Some(p.1)
                    && opt_view(p.2) == form_payment_secret(secret_enabled, words@)
                &&& toast_views(r.toasts@) == (if trimmed(to@) == own_receive_address@ {
                    seq![("Sending to your own wallet"@, ToastKind::Warning)]
                } else {
                    Seq::empty()
                }) + seq![("Sending transaction..."@, ToastKind::Info)]
            }
        }),
{
    let mut problems: Vec<String> = Vec::new();
    let to_text = trim(to);
    let amount_text = trim(amount);
    if to_text.is_empty() {
        problems.push("Recipient address required".to_owned());
    }
    let mut amount_veni: u64 = 0;
    if amount_text.is_empty() {
        problems.push("Amount required".to_owned());
    } else {
        match parsed_amount {
            Some(v) if v > 0 => {
                amount_veni = v;
            },
            _ => {
                problems.push("Invalid amount".to_owned());
            },
        }
    }
    let kept = filled_words(words);
    let payment_secret = if secret_enabled && kept.len() > 0 {
        Some(join_spaced(&kept))
    } else {
        None
    };
    if secret_enabled && kept.len() == 0 {
        problems.push("Payment secret enabled but empty".to_owned());
    }
    let ghost expected = send_form_problems(
        trimmed(to@),
        trimmed(amount@),
        parsed_amount,
        secret_enabled,
        words@,
    );
    proof {
        assert(texts(problems@) =~= expected);
    }
    let mut toasts: Vec<(String, ToastKind)> = Vec::new();
    if problems.len() > 0 {
        let mut i: usize = 0;
        while i < problems.len()
            invariant
                i <= problems@.len(),
                toasts@.len() == i,
                forall|k: int| 0 <= k < i ==> (#[trigger] toasts@[k]).0@ == problems@[k]@,
                forall|k: int| 0 <= k < i ==> (#[trigger] toasts@[k]).1 == ToastKind::Error,
            decreases problems@.len() - i,
        {
            toasts.push((problems[i].clone(), ToastKind::Error));
            i = i + 1;
        }
        proof {
            assert(toast_views(toasts@) =~= as_errors(expected)) by {
                assert(texts(problems@) =~= expected);
                assert forall|k: int| 0 <= k < toasts@.len() implies toast_views(toasts@)[k]
                    == as_errors(expected)[k] by {
                    assert(texts(problems@)[k] == problems@[k]@);
                }
            }
        }
        return SendSubmission { toasts, payment: None };
    }
    if same_text(to_text, own_receive_address) {
        toasts.push(("Sending to your own wallet".to_owned(), ToastKind::Warning));
    }
    toasts.push(("Sending transaction...".to_owned(), ToastKind::Info));
    proof {
        assert(toast_views(toasts@) =~= (if trimmed(to@) == own_receive_address@ {
            seq![("Sending to your own wallet"@, ToastKind::Warning)]
        } else {
            Seq::empty()
        }) + seq![("Sending transaction..."@, ToastKind::Info)]);
    }
    SendSubmission { toasts, payment: Some((to_text.to_owned(), amount_veni, payment_secret)) }
}

/// The amount text the send form can read as VE: trimmed, and not empty, not
/// `0` or `0.`, and not ending in `.`.
pub open spec fn readable_amount(s: Seq<char>) -> bool {
    let t = trimmed(s);
    t.len() > 0 && t != "0"@ && t != "0."@ && t.last() != '.'
}

/// The first step of reading an amount in VE: the trimmed text, when it is one
/// the form reads at all.
pub fn amount_text(s: &str) -> (r: Option<&str>)
    ensures
        readable_amount(s@) ==> (r matches Some(t) && t@ == trimmed(s@)),
        !readable_amount(s@) ==> r is None,
{
    let t = trim(s);
    if t.is_empty() || same_text(t, "0") || same_text(t, "0.") || crate::text::ends_with_char(t, '.') {
        None
    } else {
        Some(t)
    }
}

/// The checks of password verification in the user interface: a wallet file
/// name, then a password.
pub fn check_verify_request(filename: &str, secret: &str) -> (r: Result<(), String>)
    ensures
        filename@.len() == 0 ==> refused_with(r, "Wallet filename is required"@),
        filename@.len() != 0 && secret@.len() == 0 ==> refused_with(r, "Password is required"@),
        filename@.len() != 0 && secret@.len() != 0 ==> r is Ok,
{
    if filename.is_empty() {
        return Err("Wallet filename is required".to_owned());
    }
    if secret.is_empty() {
        return Err("Password is required".to_owned());
    }
    Ok(())
}

} // verus!
