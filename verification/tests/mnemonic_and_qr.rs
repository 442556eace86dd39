use base64::Engine;
use vecno_wallet::mnemonic::{
    absorb_key, generate_mnemonic, mnemonic_seed_hex, normalized_phrase, parsed_word_count,
    KeyMaterial, KeyVariant,
};
use vecno_wallet::qr::qr_data_url;

const TWELVE: &str = "abandon abandon abandon abandon abandon abandon abandon abandon abandon abandon abandon about";
const TREZOR_SEED: &str = "c55257c360c07c72029aebc1b53c05ed0362ada38ead3e3e9efa3708e53495531f09a6987599d18264c1e1c92f2cf141630c7a3c4ab7c81b2f001698e7463b04";

#[test]
fn generated_phrases_have_24_known_words() {
    let phrase = generate_mnemonic().unwrap();
    assert_eq!(phrase.split(' ').count(), 24);
    assert_eq!(parsed_word_count(&phrase), Some(24));
    assert_eq!(normalized_phrase(&phrase), Some(phrase.clone()));
    assert_ne!(generate_mnemonic().unwrap(), phrase);
}

#[test]
fn phrases_are_normalized_and_checked() {
    assert_eq!(normalized_phrase(&format!("  {}  ", TWELVE.replace(' ', "\t"))), Some(TWELVE.to_string()));
    assert_eq!(normalized_phrase("abandon"), None);
    assert_eq!(parsed_word_count(TWELVE), Some(12));
    assert_eq!(parsed_word_count("hello world"), None);
}

#[test]
fn seeds_follow_the_bip39_vectors() {
    assert_eq!(mnemonic_seed_hex(TWELVE, "TREZOR"), Some(TREZOR_SEED.to_string()));
    assert_eq!(mnemonic_seed_hex("not a phrase", "TREZOR"), None);
}

#[test]
fn keys_are_absorbed() {
    let empty = KeyMaterial { mnemonic: None, bip39_seed: None };
    let with_secret = absorb_key(empty.clone(), &KeyVariant::Mnemonic(format!(" {TWELVE} ")), Some("TREZOR"));
    assert_eq!(with_secret.mnemonic, Some(TWELVE.to_string()));
    assert_eq!(with_secret.bip39_seed, Some(TREZOR_SEED.to_string()));
    let without = absorb_key(empty.clone(), &KeyVariant::Mnemonic(TWELVE.to_string()), None);
    assert_eq!(without.bip39_seed, None);
    let raw = absorb_key(without.clone(), &KeyVariant::Bip39Seed(" abcd ".into()), None);
    assert_eq!(raw.bip39_seed, Some("abcd".into()));
    assert_eq!(raw.mnemonic, Some(TWELVE.to_string()));
    let other = absorb_key(raw.clone(), &KeyVariant::Other, Some("x"));
    assert_eq!(other, raw);
    let unparsable = absorb_key(raw.clone(), &KeyVariant::Mnemonic("two words".into()), Some("x"));
    assert_eq!(unparsable.mnemonic, Some("two words".into()));
    assert_eq!(unparsable.bip39_seed, Some("abcd".into()));
}

#[test]
fn qr_codes_are_png_data_urls() {
    let url = qr_data_url("vecno:qrh6mye3examplereceiveaddress");
    let body = url.strip_prefix("data:image/png;base64,").expect("prefix");
    let png = base64::engine::general_purpose::STANDARD.decode(body).unwrap();
    assert_eq!(&png[..8], b"\x89PNG\r\n\x1a\n");
    let empty = qr_data_url("");
    assert!(empty.starts_with("data:image/png;base64,iVBOR"));
    assert_ne!(url, empty);
}

#[test]
fn overlong_text_falls_back_to_an_empty_code() {
    let long = "x".repeat(10_000);
    assert_eq!(qr_data_url(&long), qr_data_url(""));
}
