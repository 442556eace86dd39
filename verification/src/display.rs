//! How the user interface renders numbers and records: thousands separators,
//! the VE label of an amount, difficulty units, transaction direction and the
//! short texts that stand in for a balance while it loads.
use vstd::prelude::*;
use crate::models::{ToastKind, Transaction, WalletFile};
use crate::text::{
    chars_of, concat2, concat3, concat4, decimal, decimal_string, parse_u64, push_char, same_text,
    strip_trailing, string_of, trim_end_char, u64_text_value,
};

verus! {

// ---------------------------------------------------------------------------
// Thousands separators
// ---------------------------------------------------------------------------

/// `d` with a comma before every group of three digits counted from the right.
pub open spec fn group_thousands(d: Seq<char>) -> Seq<char>
    decreases d.len(),
{
    if d.len() <= 3 {
        d
    } else {
        group_thousands(d.take(d.len() - 3)) + seq![','] + d.skip(d.len() - 3)
    }
}

proof fn lemma_group_step(d: Seq<char>, j: int)
    requires
        1 <= j,
        j + 3 <= d.len(),
    ensures
        group_thousands(d.take(j + 3)) == group_thousands(d.take(j)) + seq![','] + d.subrange(
            j,
            j + 3,
        ),
{
    let t = d.take(j + 3);
    assert(t.take(j) =~= d.take(j));
    assert(t.skip(j) =~= d.subrange(j, j + 3));
}

/// `n` in decimal with commas between groups of three digits: 1234567 is
/// `1,234,567`.
pub fn format_with_commas(n: u64) -> (r: String)
    ensures
        r@ == group_thousands(decimal(n as nat)),
{
    let digits = decimal_string(n);
    let d = chars_of(digits.as_str());
    proof {
        crate::text::lemma_decimal_len(n as nat);
    }
    let len = d.len();
    let mut g: usize = len % 3;
    if g == 0 {
        g = 3;
    }
    let mut out: Vec<char> = Vec::new();
    let mut k: usize = 0;
    while k < g
        invariant
            k <= g <= 3,
            g <= len,
            len == d@.len(),
            out@ == d@.take(k as int),
        decreases g - k,
    {
        out.push(d[k]);
        proof {
            assert(d@.take(k + 1) =~= d@.take(k as int).push(d@[k as int]));
        }
        k = k + 1;
    }
    proof {
        assert(group_thousands(d@.take(g as int)) == d@.take(g as int));
    }
    let mut j: usize = g;
    while j < len
        invariant
            1 <= j <= len,
            len == d@.len(),
            (len - j) % 3 == 0,
            out@ == group_thousands(d@.take(j as int)),
        decreases len - j,
    {
        proof {
            lemma_group_step(d@, j as int);
        }
        out.push(',');
        out.push(d[j]);
        out.push(d[j + 1]);
        out.push(d[j + 2]);
        proof {
            assert(out@ =~= group_thousands(d@.take(j as int)) + seq![','] + d@.subrange(
                j as int,
                j + 3,
            ));
        }
        j = j + 3;
    }
    proof {
        assert(d@.take(len as int) =~= d@);
    }
    string_of(&out)
}

/// Grouping adds nothing but commas: with every comma removed, a grouped text
/// and the text it groups agree.
pub proof fn lemma_commas_removed(d: Seq<char>)
    ensures
        group_thousands(d).filter(|c: char| c != ',') == d.filter(|c: char| c != ','),
    decreases d.len(),
{
    let keep = |c: char| c != ',';
    if d.len() > 3 {
        let head = d.take(d.len() - 3);
        let tail = d.skip(d.len() - 3);
        lemma_commas_removed(head);
        assert(d =~= head + tail);
        Seq::filter_distributes_over_add(head, tail, keep);
        Seq::filter_distributes_over_add(group_thousands(head) + seq![','], tail, keep);
        Seq::filter_distributes_over_add(group_thousands(head), seq![','], keep);
        reveal_with_fuel(Seq::filter, 2);
        assert(seq![','].drop_last() =~= Seq::<char>::empty());
        assert(seq![','].last() == ',');
        assert(seq![','].filter(keep) =~= Seq::<char>::empty());
    }
}

/// A number in decimal holds no comma.
proof fn lemma_decimal_has_no_commas(n: nat)
    ensures
        decimal(n).filter(|c: char| c != ',') == decimal(n),
    decreases n,
{
    let keep = |c: char| c != ',';
    if n < 10 {
        assert(decimal(n) =~= Seq::<char>::empty().push(crate::text::digit_char(n)));
        Seq::<char>::empty().lemma_filter_push(crate::text::digit_char(n), keep);
        assert(Seq::<char>::empty().filter(keep) =~= Seq::<char>::empty()) by {
            reveal(Seq::filter);
        }
    } else {
        lemma_decimal_has_no_commas(n / 10);
        decimal(n / 10).lemma_filter_push(crate::text::digit_char(n % 10), keep);
    }
}

/// Without its thousands separators, `format_with_commas(n)` is `n` in decimal.
pub proof fn lemma_grouped_number_digits(n: u64)
    ensures
        group_thousands(decimal(n as nat)).filter(|c: char| c != ',') == decimal(n as nat),
{
    lemma_commas_removed(decimal(n as nat));
    lemma_decimal_has_no_commas(n as nat);
}

// ---------------------------------------------------------------------------
// Amounts in VE
// ---------------------------------------------------------------------------

/// `s` without trailing zeros and then without a trailing dot, as
/// `trim_end_matches('0').trim_end_matches('.')` leaves it.
pub open spec fn without_decimal_zeros(s: Seq<char>) -> Seq<char> {
    strip_trailing(strip_trailing(s, '0'), '.')
}

/// Removes the trailing zeros of a decimal, then a trailing dot.
pub fn trim_decimal_zeros(s: &str) -> (r: String)
    ensures
        r@ == without_decimal_zeros(s@),
{
    trim_end_char(trim_end_char(s, '0'), '.').to_owned()
}

/// The label of an amount of `veni`, given its value in VE written with eight
/// decimals: `0 VE` for nothing, else that value followed by ` VE`.
pub open spec fn ve_label_text(veni: u64, fixed: Seq<char>) -> Seq<char> {
    if veni == 0 {
        "0 VE"@
    } else {
        fixed + " VE"@
    }
}

/// The label of an amount of `veni`; `fixed` is its value in VE with eight
/// decimals.
pub fn ve_label(veni: u64, fixed: &str) -> (r: String)
    ensures
        r@ == ve_label_text(veni, fixed@),
{
    if veni == 0 {
        "0 VE".to_owned()
    } else {
        concat2(fixed, " VE")
    }
}

/// A text that does not end in `0` or `.` has no decimal zeros to trim.
pub proof fn lemma_nothing_to_trim(s: Seq<char>)
    requires
        s.len() > 0,
        s.last() != '0',
        s.last() != '.',
    ensures
        without_decimal_zeros(s) == s,
{
}

/// An amount label ends in `VE`, so trimming decimal zeros from it changes
/// nothing: the label of an amount and of a balance agree on every amount.
pub proof fn lemma_amount_label_untrimmed(veni: u64, fixed: Seq<char>)
    ensures
        without_decimal_zeros(ve_label_text(veni, fixed)) == ve_label_text(veni, fixed),
{
    reveal_strlit("0 VE");
    reveal_strlit(" VE");
    let s = ve_label_text(veni, fixed);
    assert(s.last() == 'E');
    lemma_nothing_to_trim(s);
}

/// The unit letters of difficulty, in steps of a thousand.
pub open spec fn difficulty_unit(index: int) -> Seq<char> {
    if index == 0 {
        ""@
    } else if index == 1 {
        "K"@
    } else if index == 2 {
        "M"@
    } else if index == 3 {
        "G"@
    } else if index == 4 {
        "T"@
    } else if index == 5 {
        "P"@
    } else {
        "E"@
    }
}

/// The difficulty label: its value with two decimals with trailing zeros (and
/// then a trailing dot) removed, followed by a space and the unit letter when
/// there is one.
pub fn difficulty_label(fixed: &str, unit_index: usize) -> (r: String)
    requires
        unit_index <= 6,
    ensures
        unit_index == 0 ==> r@ == without_decimal_zeros(fixed@),
        unit_index > 0 ==> r@ == without_decimal_zeros(fixed@) + " "@ + difficulty_unit(
            unit_index as int,
        ),
{
    let number = trim_decimal_zeros(fixed);
    let unit = match unit_index {
        0 => "",
        1 => "K",
        2 => "M",
        3 => "G",
        4 => "T",
        5 => "P",
        _ => "E",
    };
    if unit_index == 0 {
        number
    } else {
        concat3(number.as_str(), " ", unit)
    }
}

// ---------------------------------------------------------------------------
// Transactions
// ---------------------------------------------------------------------------

/// A transaction is outgoing when it names a recipient other than our own
/// receive address.
pub open spec fn outgoing(tx: Transaction, own_address: Seq<char>) -> bool {
    tx.to_address@.len() != 0 && tx.to_address@ != own_address
}

/// Whether `tx` left the wallet.
pub fn is_outgoing(tx: &Transaction, own_address: &str) -> (b: bool)
    ensures
        b == outgoing(*tx, own_address@),
{
    !tx.to_address.as_str().is_empty() && !same_text(tx.to_address.as_str(), own_address)
}

/// `Sent` for an outgoing transaction, `Received` otherwise.
pub fn direction_label(outgoing_tx: bool) -> (r: &'static str)
    ensures
        outgoing_tx ==> r@ == "Sent"@,
        !outgoing_tx ==> r@ == "Received"@,
{
    if outgoing_tx {
        "Sent"
    } else {
        "Received"
    }
}

/// The sign shown before an amount: `-` when it left the wallet.
pub fn amount_sign(outgoing_tx: bool) -> (r: &'static str)
    ensures
        outgoing_tx ==> r@ == "-"@,
        !outgoing_tx ==> r@ == "+"@,
{
    if outgoing_tx {
        "-"
    } else {
        "+"
    }
}

/// The page of a transaction on the Vecnoscan explorer.
pub fn explorer_url(txid: &str) -> (r: String)
    ensures
        r@ == "https://vecnoscan.org/txs/"@ + txid@,
{
    concat2("https://vecnoscan.org/txs/", txid)
}

/// An entry with the same contents as `t`.
pub fn copy_transaction(t: &Transaction) -> (r: Transaction)
    ensures
        r == *t,
{
    Transaction {
        txid: t.txid.clone(),
        to_address: t.to_address.clone(),
        amount: t.amount,
        timestamp: t.timestamp.clone(),
    }
}

/// The last (at most) four entries of `list`, in their order: the latest
/// activity the history screen shows.
pub fn latest_four(list: &Vec<Transaction>) -> (r: Vec<Transaction>)
    ensures
        list@.len() <= 4 ==> r@ == list@,
        list@.len() > 4 ==> r@ == list@.skip(list@.len() - 4),
{
    let start: usize = if list.len() > 4 {
        list.len() - 4
    } else {
        0
    };
    let mut r: Vec<Transaction> = Vec::new();
    let mut i: usize = start;
    while i < list.len()
        invariant
            start <= i <= list@.len(),
            r@ == list@.subrange(start as int, i as int),
        decreases list@.len() - i,
    {
        r.push(copy_transaction(&list[i]));
        proof {
            assert(list@.subrange(start as int, i + 1) =~= list@.subrange(start as int, i as int).push(
                list@[i as int],
            ));
        }
        i = i + 1;
    }
    proof {
        assert(list@.subrange(start as int, list@.len() as int) =~= list@.skip(start as int));
        assert(list@.skip(0) =~= list@);
    }
    r
}

/// The (at most) four payments sent last, newest first: the list is kept
/// oldest first.
pub fn recent_sent(list: &Vec<Transaction>) -> (r: Vec<Transaction>)
    ensures
        r@.len() == if list@.len() <= 4 {
            list@.len()
        } else {
            4
        },
        forall|k: int| 0 <= k < r@.len() ==> #[trigger] r@[k] == list@[list@.len() - 1 - k],
{
    let mut r: Vec<Transaction> = Vec::new();
    let n = list.len();
    let mut k: usize = 0;
    while k < n && k < 4
        invariant
            n == list@.len(),
            k <= n,
            k <= 4,
            r@.len() == k,
            forall|m: int| 0 <= m < k ==> #[trigger] r@[m] == list@[n - 1 - m],
        decreases n - k,
    {
        r.push(copy_transaction(&list[n - 1 - k]));
        k = k + 1;
    }
    r
}

// ---------------------------------------------------------------------------
// Texts that stand for a balance
// ---------------------------------------------------------------------------

/// What the dashboard shows where the balance goes.
pub open spec fn dashboard_balance(is_loading: bool, balance: Seq<char>) -> Seq<char> {
    if is_loading {
        "Fetching balance..."@
    } else if balance.len() == 0 || balance == "Balance: unavailable"@ {
        "Preparing balance..."@
    } else {
        balance
    }
}

/// While the balance loads the dashboard says so; once loaded it shows the
/// balance text as it is, whatever amount it names, and stands in for it only
/// when there is none or it is unavailable.
pub proof fn lemma_dashboard_shows_loaded_balance(is_loading: bool, balance: Seq<char>)
    ensures
        is_loading ==> dashboard_balance(is_loading, balance) == "Fetching balance..."@,
        !is_loading && balance.len() > 0 && balance != "Balance: unavailable"@ ==> dashboard_balance(
            is_loading,
            balance,
        ) == balance,
{
}

/// The balance line of the dashboard.
pub fn dashboard_balance_text(is_loading: bool, balance: &str) -> (r: String)
    ensures
        r@ == dashboard_balance(is_loading, balance@),
{
    if is_loading {
        "Fetching balance...".to_owned()
    } else if balance.is_empty() || same_text(balance, "Balance: unavailable") {
        "Preparing balance...".to_owned()
    } else {
        balance.to_owned()
    }
}

/// The balance line of the history and send screens: `placeholder` while the
/// first balance loads, else the balance.
pub fn loading_balance_text(is_loading: bool, balance: &str, placeholder: &str) -> (r: String)
    ensures
        is_loading && balance@.len() == 0 ==> r@ == placeholder@,
        !(is_loading && balance@.len() == 0) ==> r@ == balance@,
{
    if is_loading && balance.is_empty() {
        placeholder.to_owned()
    } else {
        balance.to_owned()
    }
}

/// The block height shown on the dashboard: the virtual DAA score, with
/// thousands separators, or 0 when it does not read as a number.
pub fn height_label(daa_score: &str) -> (r: String)
    ensures
        u64_text_value(daa_score@) matches Some(v) ==> r@ == group_thousands(decimal(v)),
        u64_text_value(daa_score@) is None ==> r@ == "0"@,
{
    let n = match parse_u64(daa_score) {
        Ok(v) => v,
        Err(_) => 0,
    };
    let r = format_with_commas(n);
    proof {
        reveal_strlit("0");
        if u64_text_value(daa_score@) is None {
            assert(decimal(0) =~= seq!['0']);
        }
    }
    r
}

/// Veni in one VE.
pub const VENI_PER_VE: u64 = 100_000_000;

/// The circulating supply shown on the dashboard: whole VE, with thousands
/// separators, when the node's figure (in veni) reads as a number.
pub fn supply_label(circulating_veni: &str) -> (r: Option<String>)
    ensures
        u64_text_value(circulating_veni@) matches Some(v) ==> (r matches Some(s) && s@
            == group_thousands(decimal(v / VENI_PER_VE as nat))),
        u64_text_value(circulating_veni@) is None ==> r is None,
{
    match parse_u64(circulating_veni) {
        Ok(v) => Some(format_with_commas(v / VENI_PER_VE)),
        Err(_) => None,
    }
}

/// The market capitalisation shown on the dashboard.
pub fn market_cap_label(market_cap: u64) -> (r: String)
    ensures
        r@ == "$"@ + group_thousands(decimal(market_cap as nat)),
{
    let n = format_with_commas(market_cap);
    concat2("$", n.as_str())
}

/// The name shown on the wallet picker: that of the first wallet at the
/// selected path, else an invitation to pick one.
pub fn selected_wallet_label(wallets: &Vec<WalletFile>, selected: &str) -> (r: String)
    ensures
        (exists|k: int| 0 <= k < wallets@.len() && #[trigger] wallets@[k].path@ == selected@) ==> (
        exists|k: int|
            0 <= k < wallets@.len() && #[trigger] wallets@[k].path@ == selected@ && r@
                == wallets@[k].name@ && forall|m: int| 0 <= m < k ==> wallets@[m].path@ != selected@),
        (forall|k: int| 0 <= k < wallets@.len() ==> #[trigger] wallets@[k].path@ != selected@)
            ==> r@ == "Select a wallet"@,
{
    let mut i: usize = 0;
    while i < wallets.len()
        invariant
            i <= wallets@.len(),
            forall|m: int| 0 <= m < i ==> #[trigger] wallets@[m].path@ != selected@,
        decreases wallets@.len() - i,
    {
        if same_text(wallets[i].path.as_str(), selected) {
            return wallets[i].name.clone();
        }
        i = i + 1;
    }
    "Select a wallet".to_owned()
}

/// The label of an account on the receive screen.
pub fn account_label(index: u32) -> (r: String)
    ensures
        r@ == "Account #"@ + decimal(index as nat),
{
    let n = decimal_string(index as u64);
    concat2("Account #", n.as_str())
}

/// The style that draws a notification's icon.
pub fn toast_icon_style(kind: ToastKind) -> (r: String)
    ensures
        r@ == "-webkit-mask-image: url(\""@ + kind.icon_mask_text() + "\"); mask-image: url(\""@
            + kind.icon_mask_text() + "\");"@,
{
    let m = kind.icon_mask();
    let head = concat3("-webkit-mask-image: url(\"", m, "\"); mask-image: url(\"");
    concat3(head.as_str(), m, "\");")
}

} // verus!
