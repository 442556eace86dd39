use vecno_wallet::forms::{
    add_slot, any_word_filled, create_grid_extended, edit_slot, send_grid_extended, show_secret_slots,
    with_slot_set,
    amount_text, check_create_form, check_import_form, check_open_form, check_send_request,
    check_verify_request, filled_words, import_form_ready, is_valid_filename, is_valid_password,
    secret_word, submit_create_form, submit_send_form, with_added_slot, MAX_SECRET_WORDS,
};
use vecno_wallet::models::{ErrorResponse, ToastKind};

#[test]
fn toast_classes() {
    assert_eq!(ToastKind::Error.class(), "toast-error");
    assert_eq!(ToastKind::Success.class(), "toast-success");
    assert_eq!(ToastKind::Warning.class(), "toast-warning");
    assert_eq!(ToastKind::Info.class(), "toast-info");
    assert_eq!(ToastKind::default(), ToastKind::Error);
}

#[test]
fn toast_icons_are_svg_data_urls_in_the_kind_colour() {
    for (kind, colour) in [
        (ToastKind::Error, "%23f87171"),
        (ToastKind::Success, "%232dd4bf"),
        (ToastKind::Warning, "%23fbbf24"),
        (ToastKind::Info, "%236b7280"),
    ] {
        let icon = kind.icon_mask();
        assert!(icon.starts_with("data:image/svg+xml,%3Csvg"));
        assert!(icon.contains(colour));
    }
}

#[test]
fn error_response_holds_its_message() {
    assert_eq!(ErrorResponse::new("boom").error, "boom");
}

#[test]
fn filenames() {
    assert!(is_valid_filename("my-wallet_1"));
    assert!(!is_valid_filename(""));
    for bad in ["a<b", "a>b", "a:b", "a\"b", "a/b", "a\\b", "a|b", "a?b", "a*b", "a,b"] {
        assert!(!is_valid_filename(bad), "{bad}");
    }
    assert!(is_valid_filename(&"x".repeat(255)));
    assert!(!is_valid_filename(&"x".repeat(256)));
    assert!(!is_valid_filename(&"é".repeat(128)));
    assert!(is_valid_filename(&"é".repeat(127)));
}

#[test]
fn passwords() {
    assert!(is_valid_password("12345678"));
    assert!(!is_valid_password("1234567"));
    assert!(!is_valid_password(""));
    assert!(is_valid_password("ééééé"));
}

#[test]
fn open_form_errors_in_order() {
    assert_eq!(check_open_form("", ""), Err("Select a Wallet".to_string()));
    assert_eq!(check_open_form("w.wallet", ""), Err("Wallet password is required".to_string()));
    assert_eq!(
        check_open_form("w.wallet", "short"),
        Err("Password must be at least 8 characters".to_string())
    );
    assert_eq!(check_open_form("w.wallet", "long enough"), Ok(()));
}

#[test]
fn create_form_errors_in_order() {
    assert_eq!(check_create_form("", "x"), Err("Wallet filename is required".to_string()));
    assert_eq!(
        check_create_form("a/b", "x"),
        Err("Filename contains invalid characters or is too long".to_string())
    );
    assert_eq!(check_create_form("ok", ""), Err("Wallet password is required".to_string()));
    assert_eq!(
        check_create_form("ok", "short"),
        Err("Password must be at least 8 characters".to_string())
    );
    assert_eq!(check_create_form("ok", "password1"), Ok(()));
}

#[test]
fn import_form_errors_in_order() {
    let twelve = "a b c d e f g h i j k l";
    assert_eq!(check_import_form("", "x", "f"), Err("Mnemonic phrase is required".to_string()));
    assert_eq!(
        check_import_form("a b c", "x", "f"),
        Err("Mnemonic must be 12 or 24 words".to_string())
    );
    assert_eq!(check_import_form(twelve, "", "f"), Err("Wallet password is required".to_string()));
    assert_eq!(
        check_import_form(twelve, "short", "f"),
        Err("Password must be at least 8 characters".to_string())
    );
    assert_eq!(
        check_import_form(twelve, "password1", ""),
        Err("Wallet filename is required".to_string())
    );
    assert_eq!(
        check_import_form(twelve, "password1", "a*b"),
        Err("Filename contains invalid characters or is too long".to_string())
    );
    assert_eq!(check_import_form(twelve, "password1", "fine"), Ok(()));
    assert!(import_form_ready("fine", "password1", twelve));
    assert!(!import_form_ready("fine", "password1", "a b"));
    assert!(!import_form_ready("", "password1", twelve));
}

#[test]
fn send_request_errors_in_order() {
    assert_eq!(check_send_request("", 1, true), Err("Recipient address is required".to_string()));
    assert_eq!(check_send_request("vecno:q", 0, true), Err("Amount must be greater than 0".to_string()));
    assert_eq!(check_send_request("vecno:q", 5, false), Err("No wallet open".to_string()));
    assert_eq!(check_send_request("vecno:q", 5, true), Ok(()));
}

#[test]
fn verify_request_errors() {
    assert_eq!(check_verify_request("", "x"), Err("Wallet filename is required".to_string()));
    assert_eq!(check_verify_request("f", ""), Err("Password is required".to_string()));
    assert_eq!(check_verify_request("f", "p"), Ok(()));
}

#[test]
fn secret_words_are_first_word_lowercase() {
    assert_eq!(secret_word("  Apple pie"), "apple");
    assert_eq!(secret_word("   "), "");
    assert_eq!(secret_word("ÉCOLE"), "école");
}

#[test]
fn secret_slots_stop_at_twenty_four() {
    let mut words = vec![String::new()];
    for _ in 0..40 {
        words = with_added_slot(&words);
    }
    assert_eq!(words.len(), MAX_SECRET_WORDS);
    let filled = filled_words(&vec!["a".to_string(), String::new(), "b".to_string()]);
    assert_eq!(filled, vec!["a".to_string(), "b".to_string()]);
}

#[test]
fn create_form_reports_every_problem() {
    let err = submit_create_form("  ", "", true, &vec![String::new()]).unwrap_err();
    assert_eq!(
        err,
        vec![
            "Filename is required".to_string(),
            "Password is required".to_string(),
            "Payment secret cannot be empty when enabled".to_string(),
        ]
    );
    let err = submit_create_form("a/b", "weak", false, &vec![]).unwrap_err();
    assert_eq!(
        err,
        vec![
            "Invalid filename. Use letters, numbers, dashes.".to_string(),
            "Password too weak. Use 8+ chars, mix types.".to_string(),
        ]
    );
}

#[test]
fn create_form_passes_on_trimmed_name_and_joined_secret() {
    let words = vec!["one".to_string(), String::new(), "two".to_string()];
    let req = submit_create_form(" wallet ", "password1", true, &words).unwrap();
    assert_eq!(req.filename, "wallet");
    assert_eq!(req.password, "password1");
    assert_eq!(req.payment_secret, Some("one two".to_string()));
    let req = submit_create_form("wallet", "password1", false, &words).unwrap();
    assert_eq!(req.payment_secret, None);
}

#[test]
fn send_form_problems_are_errors() {
    let sub = submit_send_form("", "", None, true, &vec![String::new()], "vecno:own");
    assert!(sub.payment.is_none());
    assert_eq!(
        sub.toasts,
        vec![
            ("Recipient address required".to_string(), ToastKind::Error),
            ("Amount required".to_string(), ToastKind::Error),
            ("Payment secret enabled but empty".to_string(), ToastKind::Error),
        ]
    );
    let sub = submit_send_form("vecno:x", "abc", None, false, &vec![], "vecno:own");
    assert_eq!(sub.toasts, vec![("Invalid amount".to_string(), ToastKind::Error)]);
    let sub = submit_send_form("vecno:x", "0.0", Some(0), false, &vec![], "vecno:own");
    assert_eq!(sub.toasts, vec![("Invalid amount".to_string(), ToastKind::Error)]);
}

#[test]
fn send_form_asks_for_the_payment() {
    let sub = submit_send_form(" vecno:own ", " 1.5 ", Some(150_000_000), false, &vec![], "vecno:own");
    assert_eq!(sub.payment, Some(("vecno:own".to_string(), 150_000_000, None)));
    assert_eq!(
        sub.toasts,
        vec![
            ("Sending to your own wallet".to_string(), ToastKind::Warning),
            ("Sending transaction...".to_string(), ToastKind::Info),
        ]
    );
    let words = vec!["pay".to_string(), "me".to_string()];
    let sub = submit_send_form("vecno:other", "2", Some(200_000_000), true, &words, "vecno:own");
    assert_eq!(sub.payment, Some(("vecno:other".to_string(), 200_000_000, Some("pay me".to_string()))));
    assert_eq!(sub.toasts, vec![("Sending transaction...".to_string(), ToastKind::Info)]);
}

#[test]
fn amount_texts() {
    assert_eq!(amount_text(" 1.5 "), Some("1.5"));
    assert_eq!(amount_text(""), None);
    assert_eq!(amount_text("0"), None);
    assert_eq!(amount_text("0."), None);
    assert_eq!(amount_text("12."), None);
    assert_eq!(amount_text("0.5"), Some("0.5"));
}

#[test]
fn typing_into_a_word_slot_replaces_only_that_slot() {
    let words = vec!["alpha".to_string(), String::new()];
    let set = with_slot_set(&words, 1, "beta".to_string());
    assert_eq!(set, vec!["alpha".to_string(), "beta".to_string()]);
    let unchanged = with_slot_set(&words, 5, "gamma".to_string());
    assert_eq!(unchanged, words);
}

#[test]
fn word_grids_extend_as_each_form_decides() {
    let single = vec!["alpha".to_string()];
    let first_only = vec!["alpha".to_string(), String::new()];
    let second_only = vec![String::new(), "beta".to_string()];
    let empty = vec![String::new(), String::new()];

    assert!(any_word_filled(&single));
    assert!(!any_word_filled(&empty));

    assert!(!create_grid_extended(&single));
    assert!(create_grid_extended(&first_only));
    assert!(create_grid_extended(&second_only));
    assert!(!create_grid_extended(&empty));

    assert!(!send_grid_extended(&single));
    assert!(!send_grid_extended(&first_only));
    assert!(send_grid_extended(&second_only));
    assert!(!send_grid_extended(&empty));
}

#[test]
fn word_slots_stay_between_one_and_twenty_four() {
    let mut words = vec![String::new()];
    for _ in 0..30 {
        words = add_slot(&words);
        assert!(words.len() >= 1 && words.len() <= MAX_SECRET_WORDS);
    }
    assert_eq!(words.len(), 24);
    words = edit_slot(&words, 3, "  Correct Horse ");
    assert_eq!(words[3], "correct");
    assert_eq!(words.iter().filter(|w| !w.is_empty()).count(), 1);
    assert_eq!(edit_slot(&words, 99, "ignored"), words);
    assert_eq!(show_secret_slots(&words, true), words);
    assert_eq!(show_secret_slots(&words, false), vec![String::new()]);
}

#[test]
fn toast_icons_differ_and_hold_no_double_quote() {
    let kinds = [ToastKind::Error, ToastKind::Success, ToastKind::Warning, ToastKind::Info];
    for (i, a) in kinds.iter().enumerate() {
        assert!(a.icon_mask().starts_with("data:image/svg+xml,"));
        assert!(!a.icon_mask().contains('"'));
        for b in &kinds[i + 1..] {
            assert_ne!(a.icon_mask(), b.icon_mask());
        }
    }
}
