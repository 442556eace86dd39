//! Recovery phrases: generating one from fresh entropy, parsing one, and the
//! key material the wallet keeps when it opens a wallet file. The BIP-39 work
//! itself is the `bip39` crate's; hex encoding is the `hex` crate's.
use vstd::prelude::*;
use rand::Rng;
use crate::models::ErrorResponse;
use crate::text::{trim, trimmed};

verus! {

#[verifier::external_type_specification]
#[verifier::external_body]
pub struct ExMnemonic(bip39::Mnemonic);

/// The indices, in the English word list, of the words of a parsed or
/// generated recovery phrase, in order.
pub uninterp spec fn mnemonic_words(m: bip39::Mnemonic) -> Seq<u16>;

/// What `bip39::Mnemonic::parse` makes of `phrase`: the word indices of the
/// phrase when it is a valid English BIP-39 phrase, else nothing.
pub uninterp spec fn bip39_parse(phrase: Seq<char>) -> Option<Seq<u16>>;

/// The words that `bip39::Mnemonic::from_entropy_in` chooses for `entropy`.
pub uninterp spec fn bip39_entropy_words(entropy: Seq<u8>) -> Seq<u16>;

/// The text of a phrase with word indices `words`, as `Mnemonic`'s `Display`
/// writes it.
pub uninterp spec fn bip39_phrase(words: Seq<u16>) -> Seq<char>;

/// The 64-byte BIP-39 seed of the phrase with word indices `words` under
/// `passphrase`, as `Mnemonic::to_seed` derives it.
pub uninterp spec fn bip39_seed(words: Seq<u16>, passphrase: Seq<char>) -> Seq<u8>;

/// `bip39::Mnemonic::parse(phrase).ok()`. Claims that the result is the parse
/// that `bip39_parse` names, (as the crate's `is_invalid_word_count` shows)
/// that a parsed phrase has 12, 15, 18, 21 or 24 words, and that the text of a
/// parsed phrase parses back to its words: `parse` accepted their checksum, and
/// `Display` writes the same words separated by spaces.
#[verifier::external_body]
fn parse_mnemonic(phrase: &str) -> (r: Option<bip39::Mnemonic>)
    ensures
        r is None <==> bip39_parse(phrase@) is None,
        r matches Some(m) ==> bip39_parse(phrase@) == Some(mnemonic_words(m)),
        r matches Some(m) ==> 12 <= mnemonic_words(m).len() <= 24 && mnemonic_words(m).len() % 3
            == 0,
        r matches Some(m) ==> bip39_parse(bip39_phrase(mnemonic_words(m))) == Some(
            mnemonic_words(m),
        ),
{
    bip39::Mnemonic::parse(phrase).ok()
}

/// `bip39::Mnemonic::from_entropy_in(Language::English, entropy)`, its error
/// as text. Claims success, which the crate's source shows for 32 bytes of
/// entropy (256 bits is a multiple of 32 within 128..=256), 24 words, and that
/// the phrase's text parses back to its words: `from_entropy_in` appends the
/// checksum that `parse` checks.
#[verifier::external_body]
fn mnemonic_from_entropy(entropy: &[u8; 32]) -> (r: Result<bip39::Mnemonic, String>)
    ensures
        r is Ok,
        r matches Ok(m) ==> mnemonic_words(m) == bip39_entropy_words(entropy@),
        r matches Ok(m) ==> mnemonic_words(m).len() == 24,
        r matches Ok(m) ==> bip39_parse(bip39_phrase(mnemonic_words(m))) == Some(
            mnemonic_words(m),
        ),
{
    bip39::Mnemonic::from_entropy_in(bip39::Language::English, entropy).map_err(|e| e.to_string())
}

/// `m.to_string()`: the words of the phrase separated by single spaces.
#[verifier::external_body]
fn mnemonic_text(m: &bip39::Mnemonic) -> (r: String)
    ensures
        r@ == bip39_phrase(mnemonic_words(*m)),
{
    m.to_string()
}

/// `m.word_count()`: the number of words of the phrase.
#[verifier::external_body]
fn mnemonic_word_count(m: &bip39::Mnemonic) -> (r: usize)
    ensures
        r == mnemonic_words(*m).len(),
{
    m.word_count()
}

/// `m.to_seed(passphrase)`: the BIP-39 seed of the phrase under `passphrase`.
#[verifier::external_body]
fn mnemonic_seed(m: &bip39::Mnemonic, passphrase: &str) -> (r: [u8; 64])
    ensures
        r@ == bip39_seed(mnemonic_words(*m), passphrase@),
{
    m.to_seed(passphrase)
}

/// The lowercase hexadecimal digit for `n`.
pub open spec fn hex_digit(n: nat) -> char {
    if n < 10 {
        (48 + n) as char
    } else {
        (87 + n) as char
    }
}

/// `bytes` in lowercase hexadecimal, two digits per byte, high nibble first.
pub open spec fn lower_hex(bytes: Seq<u8>) -> Seq<char>
    decreases bytes.len(),
{
    if bytes.len() == 0 {
        Seq::empty()
    } else {
        seq![hex_digit(bytes[0] as nat / 16), hex_digit(bytes[0] as nat % 16)] + lower_hex(
            bytes.drop_first(),
        )
    }
}

/// `hex::encode(bytes)`: as the crate documents it, each byte as two lowercase
/// hexadecimal digits.
#[verifier::external_body]
fn hex_encode(bytes: &[u8]) -> (r: String)
    ensures
        r@ == lower_hex(bytes@),
{
    hex::encode(bytes)
}

/// `rand::thread_rng().gen::<[u8; 32]>()`: 32 bytes from the thread's
/// cryptographically secure generator. Nothing is claimed of their values.
#[verifier::external_body]
fn random_entropy() -> [u8; 32] {
    rand::thread_rng().gen::<[u8; 32]>()
}

/// A fresh 24-word English recovery phrase, drawn from 32 bytes of random
/// entropy. Which words come out rests on chance: the contract says that the
/// phrase is the one BIP-39 gives for some 32 bytes, has 24 words, and parses
/// back to those words.
pub fn generate_mnemonic() -> (r: Result<String, ErrorResponse>)
    ensures
        r matches Ok(p) ==> exists|e: Seq<u8>|
            e.len() == 32 && p@ == bip39_phrase(#[trigger] bip39_entropy_words(e))
                && bip39_entropy_words(e).len() == 24 && bip39_parse(p@) == Some(
                bip39_entropy_words(e),
            ),
        r is Ok,
{
    let entropy = random_entropy();
    match mnemonic_from_entropy(&entropy) {
        Ok(m) => {
            let text = mnemonic_text(&m);
            proof {
                assert(entropy@.len() == 32);
                assert(text@ == bip39_phrase(bip39_entropy_words(entropy@)));
            }
            Ok(text)
        },
        Err(e) => Err(ErrorResponse { error: e }),
    }
}

/// The hexadecimal seed of `phrase` under `passphrase`, when `phrase` parses.
pub open spec fn seed_hex(phrase: Seq<char>, passphrase: Seq<char>) -> Option<Seq<char>> {
    match bip39_parse(phrase) {
        Some(words) => Some(lower_hex(bip39_seed(words, passphrase))),
        None => None,
    }
}

/// `mnemonic_seed_hex(phrase, passphrase)`: the BIP-39 seed of `phrase` under
/// `passphrase` in lowercase hexadecimal, or nothing when `phrase` does not
/// parse.
pub fn mnemonic_seed_hex(phrase: &str, passphrase: &str) -> (r: Option<String>)
    ensures
        r matches Some(h) ==> seed_hex(phrase@, passphrase@) == Some(h@),
        r is None <==> seed_hex(phrase@, passphrase@) is None,
{
    match parse_mnemonic(phrase) {
        Some(m) => {
            let seed = mnemonic_seed(&m, passphrase);
            Some(hex_encode(&seed))
        },
        None => None,
    }
}

/// The key data that a wallet file holds, as far as the wallet reads it.
#[derive(Clone, Debug)]
pub enum KeyVariant {
    Mnemonic(String),
    Bip39Seed(String),
    Other,
}

/// The recovery phrase and seed the wallet keeps while a wallet is open.
#[derive(Clone, Debug, PartialEq)]
pub struct KeyMaterial {
    pub mnemonic: Option<String>,
    pub bip39_seed: Option<String>,
}

/// What `absorb_key` leaves of the mnemonic.
pub open spec fn absorbed_mnemonic(
    state: Option<Seq<char>>,
    key: KeyVariant,
) -> Option<Seq<char>> {
    match key {
        KeyVariant::Mnemonic(s) => Some(trimmed(s@)),
        _ => state,
    }
}

/// What `absorb_key` leaves of the seed.
pub open spec fn absorbed_seed(
    state: Option<Seq<char>>,
    key: KeyVariant,
    payment_secret: Option<Seq<char>>,
) -> Option<Seq<char>> {
    match key {
        KeyVariant::Mnemonic(s) => match payment_secret {
            Some(p) => match seed_hex(trimmed(s@), p) {
                Some(h) => Some(h),
                None => state,
            },
            None => state,
        },
        KeyVariant::Bip39Seed(s) => Some(trimmed(s@)),
        KeyVariant::Other => state,
    }
}

/// The views of an optional string.
pub open spec fn opt_view(o: Option<String>) -> Option<Seq<char>> {
    match o {
        Some(s) => Some(s@),
        None => None,
    }
}

/// Takes one key from a wallet file into the material kept for the open wallet:
/// a mnemonic is kept trimmed and, with a payment secret, also yields the seed
/// (in hex) when it parses; a raw seed is kept trimmed; other keys change
/// nothing.
pub fn absorb_key(state: KeyMaterial, key: &KeyVariant, payment_secret: Option<&str>) -> (r:
    KeyMaterial)
    ensures
        opt_view(r.mnemonic) == absorbed_mnemonic(opt_view(state.mnemonic), *key),
        opt_view(r.bip39_seed) == absorbed_seed(
            opt_view(state.bip39_seed),
            *key,
            match payment_secret {
                Some(p) => Some(p@),
                None => None,
            },
        ),
{
    match key {
        KeyVariant::Mnemonic(s) => {
            let cleaned = trim(s.as_str());
            let seed = match payment_secret {
                Some(p) => match mnemonic_seed_hex(cleaned, p) {
                    Some(h) => Some(h),
                    None => state.bip39_seed,
                },
                None => state.bip39_seed,
            };
            KeyMaterial { mnemonic: Some(cleaned.to_owned()), bip39_seed: seed }
        },
        KeyVariant::Bip39Seed(s) => {
            KeyMaterial { mnemonic: state.mnemonic, bip39_seed: Some(trim(s.as_str()).to_owned()) }
        },
        KeyVariant::Other => state,
    }
}

/// The phrase of a parsed recovery phrase, as the wallet stores it.
pub open spec fn parsed_phrase(phrase: Seq<char>) -> Option<Seq<char>> {
    match bip39_parse(phrase) {
        Some(words) => Some(bip39_phrase(words)),
        None => None,
    }
}

/// Parses a recovery phrase and gives it back as the wallet stores it: its
/// words separated by single spaces. Nothing when it is not a valid phrase.
pub fn normalized_phrase(phrase: &str) -> (r: Option<String>)
    ensures
        opt_view(r) == parsed_phrase(phrase@),
{
    match parse_mnemonic(phrase) {
        Some(m) => Some(mnemonic_text(&m)),
        None => None,
    }
}

/// The number of words of a recovery phrase that parses.
pub fn parsed_word_count(phrase: &str) -> (r: Option<usize>)
    ensures
        r matches Some(n) ==> bip39_parse(phrase@) matches Some(w) && n == w.len(),
        r is None <==> bip39_parse(phrase@) is None,
{
    match parse_mnemonic(phrase) {
        Some(m) => Some(mnemonic_word_count(&m)),
        None => None,
    }
}

} // verus!
