//! What the wallet computes from the unspent outputs that the node reports:
//! the balance of the receive and change addresses, and the recent history of
//! incoming transactions.
use vstd::prelude::*;
use chrono::TimeZone;
use crate::models::Transaction;
use crate::text::{decimal, decimal_string, same_text, concat2};

verus! {

/// One unspent output, reduced to what the wallet reads of it: the address it
/// pays (when the node names one), the transaction that created it, its amount
/// in veni and the DAA score of the block that holds it.
#[derive(Clone, Debug)]
pub struct UtxoRecord {
    pub address: Option<String>,
    pub txid: String,
    pub amount: u64,
    pub block_daa_score: u64,
}

// ---------------------------------------------------------------------------
// Balance
// ---------------------------------------------------------------------------

/// The output pays the address `addr`.
pub open spec fn pays_address(u: UtxoRecord, addr: Seq<char>) -> bool {
    u.address matches Some(a) && a@ == addr
}

/// The sum of all amounts in `s`.
pub open spec fn total_amount(s: Seq<UtxoRecord>) -> nat
    decreases s.len(),
{
    if s.len() == 0 {
        0
    } else {
        total_amount(s.drop_last()) + s.last().amount as nat
    }
}

/// The sum of the amounts in `s` that pay `addr`.
pub open spec fn amount_paid_to(s: Seq<UtxoRecord>, addr: Seq<char>) -> nat
    decreases s.len(),
{
    if s.len() == 0 {
        0
    } else {
        amount_paid_to(s.drop_last(), addr) + if pays_address(s.last(), addr) {
            s.last().amount as nat
        } else {
            0nat
        }
    }
}

/// The sum of the amounts in `s` that do not pay `addr`.
pub open spec fn amount_not_paid_to(s: Seq<UtxoRecord>, addr: Seq<char>) -> nat
    decreases s.len(),
{
    if s.len() == 0 {
        0
    } else {
        amount_not_paid_to(s.drop_last(), addr) + if pays_address(s.last(), addr) {
            0nat
        } else {
            s.last().amount as nat
        }
    }
}

/// How many outputs in `s` pay `addr`.
pub open spec fn count_paid_to(s: Seq<UtxoRecord>, addr: Seq<char>) -> nat
    decreases s.len(),
{
    if s.len() == 0 {
        0
    } else {
        count_paid_to(s.drop_last(), addr) + if pays_address(s.last(), addr) {
            1nat
        } else {
            0nat
        }
    }
}

/// The balance of a wallet's receive address and of everything else it was
/// given (its change address).
#[derive(Clone, Debug, PartialEq)]
pub struct BalanceReport {
    pub receive_count: usize,
    pub change_count: usize,
    pub receive_balance: u64,
    pub change_balance: u64,
    pub total_balance: u64,
}

/// Every output counts towards exactly one of the two balances.
pub proof fn lemma_balance_partition(s: Seq<UtxoRecord>, addr: Seq<char>)
    ensures
        amount_paid_to(s, addr) + amount_not_paid_to(s, addr) == total_amount(s),
        count_paid_to(s, addr) <= s.len(),
    decreases s.len(),
{
    if s.len() > 0 {
        lemma_balance_partition(s.drop_last(), addr);
    }
}

/// A prefix never holds more than the whole.
pub proof fn lemma_total_prefix(s: Seq<UtxoRecord>, i: int)
    requires
        0 <= i <= s.len(),
    ensures
        total_amount(s.take(i)) <= total_amount(s),
    decreases s.len() - i,
{
    if i < s.len() {
        lemma_total_prefix(s, i + 1);
        assert(s.take(i + 1).drop_last() =~= s.take(i));
    } else {
        assert(s.take(i) =~= s);
    }
}

/// Splits the outputs of a wallet by whether they pay its receive address, and
/// adds up both sides: the report behind the balance the wallet shows.
pub fn balance_report(utxos: &Vec<UtxoRecord>, receive_address: &str) -> (r: BalanceReport)
    requires
        total_amount(utxos@) <= u64::MAX,
    ensures
        r.receive_balance == amount_paid_to(utxos@, receive_address@),
        r.change_balance == amount_not_paid_to(utxos@, receive_address@),
        r.total_balance == total_amount(utxos@),
        r.receive_count == count_paid_to(utxos@, receive_address@),
        r.receive_count + r.change_count == utxos@.len(),
{
    let ghost addr = receive_address@;
    let ghost s = utxos@;
    let mut receive_balance: u64 = 0;
    let mut change_balance: u64 = 0;
    let mut receive_count: usize = 0;
    let mut change_count: usize = 0;
    let mut i: usize = 0;
    while i < utxos.len()
        invariant
            s == utxos@,
            addr == receive_address@,
            total_amount(s) <= u64::MAX,
            i <= s.len(),
            receive_balance == amount_paid_to(s.take(i as int), addr),
            change_balance == amount_not_paid_to(s.take(i as int), addr),
            receive_count == count_paid_to(s.take(i as int), addr),
            receive_count + change_count == i,
        decreases s.len() - i,
    {
        let u = &utxos[i];
        proof {
            let t = s.take(i + 1);
            assert(t.drop_last() =~= s.take(i as int));
            assert(t.last() == s[i as int]);
            lemma_balance_partition(t, addr);
            lemma_total_prefix(s, i + 1);
        }
        let to_receive = match &u.address {
            Some(a) => same_text(a.as_str(), receive_address),
            None => false,
        };
        if to_receive {
            receive_balance = receive_balance + u.amount;
            receive_count = receive_count + 1;
        } else {
            change_balance = change_balance + u.amount;
            change_count = change_count + 1;
        }
        i = i + 1;
    }
    proof {
        assert(s.take(s.len() as int) =~= s);
        lemma_balance_partition(s, addr);
    }
    BalanceReport {
        receive_count,
        change_count,
        receive_balance,
        change_balance,
        total_balance: receive_balance + change_balance,
    }
}

/// Whether the outputs add up to an amount a `u64` holds.
fn total_fits(utxos: &Vec<UtxoRecord>) -> (b: bool)
    ensures
        b == (total_amount(utxos@) <= u64::MAX),
{
    let ghost s = utxos@;
    let mut total: u64 = 0;
    let mut i: usize = 0;
    while i < utxos.len()
        invariant
            s == utxos@,
            i <= s.len(),
            total == total_amount(s.take(i as int)),
        decreases s.len() - i,
    {
        proof {
            let t = s.take(i + 1);
            assert(t.drop_last() =~= s.take(i as int));
            assert(t.last() == s[i as int]);
        }
        match total.checked_add(utxos[i].amount) {
            Some(v) => total = v,
            None => {
                proof {
                    lemma_total_prefix(s, i + 1);
                }
                return false;
            },
        }
        i = i + 1;
    }
    proof {
        assert(s.take(s.len() as int) =~= s);
    }
    true
}

/// `balance_report`, or nothing when the outputs add up to more than a `u64`
/// holds.
pub fn checked_balance_report(utxos: &Vec<UtxoRecord>, receive_address: &str) -> (r: Option<
    BalanceReport,
>)
    ensures
        r is None <==> total_amount(utxos@) > u64::MAX,
        r matches Some(rep) ==> {
            &&& rep.receive_balance == amount_paid_to(utxos@, receive_address@)
            &&& rep.change_balance == amount_not_paid_to(utxos@, receive_address@)
            &&& rep.total_balance == total_amount(utxos@)
            &&& rep.receive_count == count_paid_to(utxos@, receive_address@)
            &&& rep.receive_count + rep.change_count == utxos@.len()
        },
{
    if total_fits(utxos) {
        Some(balance_report(utxos, receive_address))
    } else {
        None
    }
}

// ---------------------------------------------------------------------------
// Grouping outputs by transaction
// ---------------------------------------------------------------------------

/// What the wallet received in one transaction: the sum of the outputs it
/// created and the DAA score of the first of them in the node's report.
#[derive(Clone, Debug, PartialEq)]
pub struct TxTotal {
    pub txid: String,
    pub block_daa_score: u64,
    pub amount: u64,
}

/// The sum of the amounts in `s` created by transaction `txid`.
pub open spec fn amount_of_tx(s: Seq<UtxoRecord>, txid: Seq<char>) -> nat
    decreases s.len(),
{
    if s.len() == 0 {
        0
    } else {
        amount_of_tx(s.drop_last(), txid) + if s.last().txid@ == txid {
            s.last().amount as nat
        } else {
            0nat
        }
    }
}

/// `j` is the first position in `s` of an output of transaction `txid`.
pub open spec fn first_output_of(s: Seq<UtxoRecord>, txid: Seq<char>, j: int) -> bool {
    &&& 0 <= j < s.len()
    &&& s[j].txid@ == txid
    &&& forall|m: int| 0 <= m < j ==> s[m].txid@ != txid
}

/// The outputs of no transaction add up to more than a `u64` holds.
pub open spec fn tx_amounts_fit(s: Seq<UtxoRecord>) -> bool {
    forall|txid: Seq<char>| #[trigger] amount_of_tx(s, txid) <= u64::MAX
}

proof fn lemma_amount_of_tx_prefix(s: Seq<UtxoRecord>, txid: Seq<char>, i: int)
    requires
        0 <= i <= s.len(),
    ensures
        amount_of_tx(s.take(i), txid) <= amount_of_tx(s, txid),
    decreases s.len() - i,
{
    if i < s.len() {
        lemma_amount_of_tx_prefix(s, txid, i + 1);
        assert(s.take(i + 1).drop_last() =~= s.take(i));
    } else {
        assert(s.take(i) =~= s);
    }
}

proof fn lemma_amount_of_absent_tx(s: Seq<UtxoRecord>, txid: Seq<char>)
    requires
        forall|j: int| 0 <= j < s.len() ==> s[j].txid@ != txid,
    ensures
        amount_of_tx(s, txid) == 0,
    decreases s.len(),
{
    if s.len() > 0 {
        let t = s.drop_last();
        assert forall|j: int| 0 <= j < t.len() implies t[j].txid@ != txid by {
            assert(t[j] == s[j]);
        }
        lemma_amount_of_absent_tx(t, txid);
    }
}

/// Where in `out` the transaction `txid` stands, when it does.
fn position_of_tx(out: &Vec<TxTotal>, txid: &str) -> (r: Option<usize>)
    ensures
        r matches Some(k) ==> k < out@.len() && out@[k as int].txid@ == txid@,
        r is None ==> forall|k: int| 0 <= k < out@.len() ==> out@[k].txid@ != txid@,
{
    let mut k: usize = 0;
    while k < out.len()
        invariant
            k <= out@.len(),
            forall|m: int| 0 <= m < k ==> out@[m].txid@ != txid@,
        decreases out@.len() - k,
    {
        if same_text(out[k].txid.as_str(), txid) {
            return Some(k);
        }
        k = k + 1;
    }
    None
}

/// `t` carries the DAA score of its transaction's first output in `s`, and
/// that output lies among the first `i` of `s`.
pub open spec fn scored_by_first_output(s: Seq<UtxoRecord>, i: int, t: TxTotal) -> bool {
    exists|j: int|
        #![trigger first_output_of(s, t.txid@, j)]
        j < i && first_output_of(s, t.txid@, j) && s[j].block_daa_score == t.block_daa_score
}

/// Some output before position `j2` of `s` belongs to transaction `txid`.
pub open spec fn output_before(s: Seq<UtxoRecord>, j2: int, txid: Seq<char>) -> bool {
    exists|j1: int| #![trigger s[j1]] 0 <= j1 < j2 && s[j1].txid@ == txid
}

/// Transaction `txid` stands in `out`.
pub open spec fn listed(out: Seq<TxTotal>, txid: Seq<char>) -> bool {
    exists|k: int| #![trigger out[k]] 0 <= k < out.len() && out[k].txid@ == txid
}

/// Every entry of `out` carries the DAA score of its transaction's first
/// output, which lies among the first `i` outputs of `s`.
#[verifier::opaque]
pub open spec fn scores_from_first_outputs(s: Seq<UtxoRecord>, i: int, out: Seq<TxTotal>) -> bool {
    forall|k: int| 0 <= k < out.len() ==> scored_by_first_output(s, i, #[trigger] out[k])
}

/// Every entry of `out` holds the sum of its transaction's outputs in `p`.
#[verifier::opaque]
pub open spec fn amounts_summed(p: Seq<UtxoRecord>, out: Seq<TxTotal>) -> bool {
    forall|k: int| 0 <= k < out.len() ==> #[trigger] out[k].amount == amount_of_tx(p, out[k].txid@)
}

/// No transaction stands twice in `out`.
#[verifier::opaque]
pub open spec fn distinct_txids(out: Seq<TxTotal>) -> bool {
    forall|k1: int, k2: int|
        0 <= k1 < k2 < out.len() ==> #[trigger] out[k1].txid@ != #[trigger] out[k2].txid@
}

/// Every transaction with an output among the first `i` of `s` stands in `out`.
#[verifier::opaque]
pub open spec fn covers_outputs(s: Seq<UtxoRecord>, i: int, out: Seq<TxTotal>) -> bool {
    forall|j: int| 0 <= j < i ==> listed(out, #[trigger] s[j].txid@)
}

/// Entries of `out` come in the order of their transactions' first outputs:
/// an earlier entry has an output before any output of a later one.
#[verifier::opaque]
pub open spec fn in_order_of_first_output(s: Seq<UtxoRecord>, out: Seq<TxTotal>) -> bool {
    forall|k1: int, k2: int, j2: int|
        #![trigger out[k1], out[k2], s[j2]]
        0 <= k1 < k2 < out.len() && 0 <= j2 < s.len() && s[j2].txid@ == out[k2].txid@
            ==> output_before(s, j2, out[k1].txid@)
}

/// `out` is the grouping of the first `i` outputs of `s`.
pub open spec fn grouped_prefix(s: Seq<UtxoRecord>, i: int, out: Seq<TxTotal>) -> bool {
    &&& scores_from_first_outputs(s, i, out)
    &&& amounts_summed(s.take(i), out)
    &&& distinct_txids(out)
    &&& covers_outputs(s, i, out)
    &&& in_order_of_first_output(s, out)
}

/// `after` names the same transactions as `before`, with the same scores.
pub open spec fn same_keys(before: Seq<TxTotal>, after: Seq<TxTotal>) -> bool {
    &&& after.len() == before.len()
    &&& forall|m: int| 0 <= m < after.len() ==> #[trigger] after[m].txid@ == before[m].txid@
    &&& forall|m: int|
        0 <= m < after.len() ==> #[trigger] after[m].block_daa_score == before[m].block_daa_score
}

proof fn lemma_group_start(s: Seq<UtxoRecord>)
    ensures
        grouped_prefix(s, 0, Seq::empty()),
{
    reveal(scores_from_first_outputs);
    reveal(amounts_summed);
    reveal(distinct_txids);
    reveal(covers_outputs);
    reveal(in_order_of_first_output);
}

proof fn lemma_scored_later(s: Seq<UtxoRecord>, i: int, t: TxTotal, u: TxTotal)
    requires
        scored_by_first_output(s, i, t),
        u.txid@ == t.txid@,
        u.block_daa_score == t.block_daa_score,
    ensures
        scored_by_first_output(s, i + 1, u),
{
    let j = choose|j: int|
        #![trigger first_output_of(s, t.txid@, j)]
        j < i && first_output_of(s, t.txid@, j) && s[j].block_daa_score == t.block_daa_score;
    assert(first_output_of(s, u.txid@, j));
}

proof fn lemma_keys_keep_scores(s: Seq<UtxoRecord>, i: int, before: Seq<TxTotal>, after: Seq<TxTotal>)
    requires
        scores_from_first_outputs(s, i, before),
        same_keys(before, after),
    ensures
        scores_from_first_outputs(s, i + 1, after),
{
    reveal(scores_from_first_outputs);
    assert forall|m: int| 0 <= m < after.len() implies scored_by_first_output(
        s,
        i + 1,
        #[trigger] after[m],
    ) by {
        assert(after[m].txid@ == before[m].txid@);
        assert(after[m].block_daa_score == before[m].block_daa_score);
        lemma_scored_later(s, i, before[m], after[m]);
    }
}

proof fn lemma_keys_keep_distinct(before: Seq<TxTotal>, after: Seq<TxTotal>)
    requires
        distinct_txids(before),
        same_keys(before, after),
    ensures
        distinct_txids(after),
{
    reveal(distinct_txids);
    assert forall|k1: int, k2: int|
        0 <= k1 < k2 < after.len() implies #[trigger] after[k1].txid@ != #[trigger] after[k2].txid@ by {
        assert(after[k1].txid@ == before[k1].txid@);
        assert(after[k2].txid@ == before[k2].txid@);
    }
}

proof fn lemma_keys_keep_order(s: Seq<UtxoRecord>, before: Seq<TxTotal>, after: Seq<TxTotal>)
    requires
        in_order_of_first_output(s, before),
        same_keys(before, after),
    ensures
        in_order_of_first_output(s, after),
{
    reveal(in_order_of_first_output);
    assert forall|k1: int, k2: int, j2: int|
        #![trigger after[k1], after[k2], s[j2]]
        0 <= k1 < k2 < after.len() && 0 <= j2 < s.len() && s[j2].txid@ == after[k2].txid@ implies output_before(
        s,
        j2,
        after[k1].txid@,
    ) by {
        assert(before[k2].txid@ == after[k2].txid@);
        assert(before[k1].txid@ == after[k1].txid@);
        assert(s[j2].txid@ == before[k2].txid@);
        assert(output_before(s, j2, before[k1].txid@));
    }
}

proof fn lemma_listed_same_keys(before: Seq<TxTotal>, after: Seq<TxTotal>, x: Seq<char>)
    requires
        listed(before, x),
        same_keys(before, after),
    ensures
        listed(after, x),
{
    let m = choose|m: int| #![trigger before[m]] 0 <= m < before.len() && before[m].txid@ == x;
    assert(after[m].txid@ == before[m].txid@);
}

proof fn lemma_keys_keep_cover(s: Seq<UtxoRecord>, i: int, before: Seq<TxTotal>, k: int, after: Seq<TxTotal>)
    requires
        0 <= i < s.len(),
        covers_outputs(s, i, before),
        same_keys(before, after),
        0 <= k < after.len(),
        after[k].txid@ == s[i].txid@,
    ensures
        covers_outputs(s, i + 1, after),
{
    reveal(covers_outputs);
    assert forall|j: int| 0 <= j < i + 1 implies listed(after, #[trigger] s[j].txid@) by {
        if j == i {
            assert(after[k].txid@ == s[j].txid@);
        } else {
            lemma_listed_same_keys(before, after, s[j].txid@);
        }
    }
}

proof fn lemma_amounts_add_to_existing(
    s: Seq<UtxoRecord>,
    i: int,
    before: Seq<TxTotal>,
    k: int,
    after: Seq<TxTotal>,
)
    requires
        0 <= i < s.len(),
        amounts_summed(s.take(i), before),
        distinct_txids(before),
        same_keys(before, after),
        0 <= k < before.len(),
        before[k].txid@ == s[i].txid@,
        after[k].amount == before[k].amount + s[i].amount,
        forall|m: int| 0 <= m < after.len() && m != k ==> after[m] == before[m],
    ensures
        amounts_summed(s.take(i + 1), after),
{
    reveal(amounts_summed);
    reveal(distinct_txids);
    let t = s.take(i + 1);
    assert(t.drop_last() =~= s.take(i));
    assert(t.last() == s[i]);
    assert forall|m: int| 0 <= m < after.len() implies #[trigger] after[m].amount == amount_of_tx(
        t,
        after[m].txid@,
    ) by {
        assert(after[m].txid@ == before[m].txid@);
        if m != k {
            if m < k {
                assert(before[m].txid@ != before[k].txid@);
            } else {
                assert(before[k].txid@ != before[m].txid@);
            }
        }
    }
}

proof fn lemma_group_add_to_existing(
    s: Seq<UtxoRecord>,
    i: int,
    before: Seq<TxTotal>,
    k: int,
    after: Seq<TxTotal>,
)
    requires
        0 <= i < s.len(),
        grouped_prefix(s, i, before),
        0 <= k < before.len(),
        before[k].txid@ == s[i].txid@,
        same_keys(before, after),
        after[k].amount == before[k].amount + s[i].amount,
        forall|m: int| 0 <= m < after.len() && m != k ==> after[m] == before[m],
    ensures
        grouped_prefix(s, i + 1, after),
{
    lemma_keys_keep_scores(s, i, before, after);
    lemma_keys_keep_distinct(before, after);
    lemma_keys_keep_order(s, before, after);
    lemma_keys_keep_cover(s, i, before, k, after);
    lemma_amounts_add_to_existing(s, i, before, k, after);
}

proof fn lemma_absent_before(s: Seq<UtxoRecord>, i: int, before: Seq<TxTotal>)
    requires
        0 <= i < s.len(),
        covers_outputs(s, i, before),
        forall|m: int| 0 <= m < before.len() ==> before[m].txid@ != s[i].txid@,
    ensures
        forall|j: int| 0 <= j < i ==> s[j].txid@ != s[i].txid@,
        first_output_of(s, s[i].txid@, i),
{
    reveal(covers_outputs);
    assert forall|j: int| 0 <= j < i implies s[j].txid@ != s[i].txid@ by {
        assert(listed(before, s[j].txid@));
        let m0 = choose|m: int| #![trigger before[m]] 0 <= m < before.len() && before[m].txid@ == s[j].txid@;
        assert(before[m0].txid@ != s[i].txid@);
    }
}

proof fn lemma_new_scores(s: Seq<UtxoRecord>, i: int, before: Seq<TxTotal>, entry: TxTotal)
    requires
        0 <= i < s.len(),
        scores_from_first_outputs(s, i, before),
        first_output_of(s, s[i].txid@, i),
        entry.txid@ == s[i].txid@,
        entry.block_daa_score == s[i].block_daa_score,
    ensures
        scores_from_first_outputs(s, i + 1, before.push(entry)),
{
    reveal(scores_from_first_outputs);
    let after = before.push(entry);
    let n = before.len() as int;
    assert forall|m: int| 0 <= m < after.len() implies scored_by_first_output(
        s,
        i + 1,
        #[trigger] after[m],
    ) by {
        if m == n {
            assert(after[m] == entry);
            assert(first_output_of(s, entry.txid@, i));
        } else {
            assert(after[m] == before[m]);
            lemma_scored_later(s, i, before[m], after[m]);
        }
    }
}

proof fn lemma_new_amounts(s: Seq<UtxoRecord>, i: int, before: Seq<TxTotal>, entry: TxTotal)
    requires
        0 <= i < s.len(),
        amounts_summed(s.take(i), before),
        forall|j: int| 0 <= j < i ==> s[j].txid@ != s[i].txid@,
        forall|m: int| 0 <= m < before.len() ==> before[m].txid@ != s[i].txid@,
        entry.txid@ == s[i].txid@,
        entry.amount == s[i].amount,
    ensures
        amounts_summed(s.take(i + 1), before.push(entry)),
{
    reveal(amounts_summed);
    let after = before.push(entry);
    let n = before.len() as int;
    let t = s.take(i + 1);
    let p = s.take(i);
    assert(t.drop_last() =~= p);
    assert(t.last() == s[i]);
    assert forall|j: int| 0 <= j < p.len() implies p[j].txid@ != s[i].txid@ by {
        assert(p[j] == s[j]);
    }
    lemma_amount_of_absent_tx(p, s[i].txid@);
    assert forall|m: int| 0 <= m < after.len() implies #[trigger] after[m].amount == amount_of_tx(
        t,
        after[m].txid@,
    ) by {
        if m < n {
            assert(after[m] == before[m]);
        } else {
            assert(after[m] == entry);
        }
    }
}

proof fn lemma_new_distinct(before: Seq<TxTotal>, entry: TxTotal)
    requires
        distinct_txids(before),
        forall|m: int| 0 <= m < before.len() ==> before[m].txid@ != entry.txid@,
    ensures
        distinct_txids(before.push(entry)),
{
    reveal(distinct_txids);
    let after = before.push(entry);
    let n = before.len() as int;
    assert forall|k1: int, k2: int|
        0 <= k1 < k2 < after.len() implies #[trigger] after[k1].txid@ != #[trigger] after[k2].txid@ by {
        assert(after[k1] == before[k1]);
        if k2 < n {
            assert(after[k2] == before[k2]);
        } else {
            assert(after[k2] == entry);
        }
    }
}

proof fn lemma_new_cover(s: Seq<UtxoRecord>, i: int, before: Seq<TxTotal>, entry: TxTotal)
    requires
        0 <= i < s.len(),
        covers_outputs(s, i, before),
        entry.txid@ == s[i].txid@,
    ensures
        covers_outputs(s, i + 1, before.push(entry)),
{
    reveal(covers_outputs);
    let after = before.push(entry);
    let n = before.len() as int;
    assert forall|j: int| 0 <= j < i + 1 implies listed(after, #[trigger] s[j].txid@) by {
        if j == i {
            assert(after[n] == entry);
        } else {
            assert(listed(before, s[j].txid@));
            let m0 = choose|m: int| #![trigger before[m]] 0 <= m < before.len() && before[m].txid@ == s[j].txid@;
            assert(after[m0] == before[m0]);
        }
    }
}

proof fn lemma_new_order(s: Seq<UtxoRecord>, i: int, before: Seq<TxTotal>, entry: TxTotal)
    requires
        0 <= i < s.len(),
        in_order_of_first_output(s, before),
        scores_from_first_outputs(s, i, before),
        forall|j: int| 0 <= j < i ==> s[j].txid@ != s[i].txid@,
        entry.txid@ == s[i].txid@,
    ensures
        in_order_of_first_output(s, before.push(entry)),
{
    reveal(in_order_of_first_output);
    reveal(scores_from_first_outputs);
    let after = before.push(entry);
    let n = before.len() as int;
    assert forall|k1: int, k2: int, j2: int|
        #![trigger after[k1], after[k2], s[j2]]
        0 <= k1 < k2 < after.len() && 0 <= j2 < s.len() && s[j2].txid@ == after[k2].txid@ implies output_before(
        s,
        j2,
        after[k1].txid@,
    ) by {
        assert(after[k1] == before[k1]);
        if k2 < n {
            assert(after[k2] == before[k2]);
            assert(output_before(s, j2, before[k1].txid@));
        } else {
            assert(after[k2] == entry);
            assert(scored_by_first_output(s, i, before[k1]));
            let j1 = choose|j: int|
                #![trigger first_output_of(s, before[k1].txid@, j)]
                j < i && first_output_of(s, before[k1].txid@, j) && s[j].block_daa_score
                    == before[k1].block_daa_score;
            if j2 < i {
                assert(s[j2].txid@ != s[i].txid@);
            }
            assert(s[j1].txid@ == after[k1].txid@);
        }
    }
}

proof fn lemma_group_add_new(
    s: Seq<UtxoRecord>,
    i: int,
    before: Seq<TxTotal>,
    entry: TxTotal,
)
    requires
        0 <= i < s.len(),
        grouped_prefix(s, i, before),
        forall|m: int| 0 <= m < before.len() ==> before[m].txid@ != s[i].txid@,
        entry.txid@ == s[i].txid@,
        entry.block_daa_score == s[i].block_daa_score,
        entry.amount == s[i].amount,
    ensures
        grouped_prefix(s, i + 1, before.push(entry)),
{
    lemma_absent_before(s, i, before);
    lemma_new_scores(s, i, before, entry);
    lemma_new_amounts(s, i, before, entry);
    lemma_new_distinct(before, entry);
    lemma_new_cover(s, i, before, entry);
    lemma_new_order(s, i, before, entry);
}

/// Every entry of `out` carries the DAA score of its transaction's first
/// output in `s`.
pub open spec fn first_scores(s: Seq<UtxoRecord>, out: Seq<TxTotal>) -> bool {
    forall|k: int| 0 <= k < out.len() ==> scored_by_first_output(s, s.len() as int, #[trigger] out[k])
}

proof fn lemma_group_done(s: Seq<UtxoRecord>, out: Seq<TxTotal>)
    requires
        grouped_prefix(s, s.len() as int, out),
    ensures
        first_scores(s, out),
        amounts_summed(s, out),
        distinct_txids(out),
        covers_outputs(s, s.len() as int, out),
        in_order_of_first_output(s, out),
{
    reveal(scores_from_first_outputs);
    assert(s.take(s.len() as int) =~= s);
}

/// The sum of the amounts of `out`.
pub open spec fn grouped_total(out: Seq<TxTotal>) -> nat
    decreases out.len(),
{
    if out.len() == 0 {
        0
    } else {
        grouped_total(out.drop_last()) + out.last().amount as nat
    }
}

/// Changing one entry's amount changes the sum by as much.
proof fn lemma_grouped_total_update(out: Seq<TxTotal>, k: int, t: TxTotal)
    requires
        0 <= k < out.len(),
    ensures
        grouped_total(out.update(k, t)) + out[k].amount == grouped_total(out) + t.amount,
    decreases out.len(),
{
    let u = out.update(k, t);
    if k < out.len() - 1 {
        assert(u.drop_last() =~= out.drop_last().update(k, t));
        lemma_grouped_total_update(out.drop_last(), k, t);
    } else {
        assert(u.drop_last() =~= out.drop_last());
    }
}

/// Groups outputs by the transaction that created them, in the order in which
/// each transaction first appears: one entry per transaction, holding the sum
/// of its outputs and the DAA score of its first output.
pub fn group_by_transaction(utxos: &Vec<UtxoRecord>) -> (out: Vec<TxTotal>)
    requires
        tx_amounts_fit(utxos@),
    ensures
        first_scores(utxos@, out@),
        amounts_summed(utxos@, out@),
        distinct_txids(out@),
        covers_outputs(utxos@, utxos@.len() as int, out@),
        in_order_of_first_output(utxos@, out@),
        grouped_total(out@) == total_amount(utxos@),
{
    let ghost s = utxos@;
    let mut out: Vec<TxTotal> = Vec::new();
    proof {
        lemma_group_start(s);
    }
    let mut i: usize = 0;
    while i < utxos.len()
        invariant
            s == utxos@,
            tx_amounts_fit(s),
            i <= s.len(),
            grouped_prefix(s, i as int, out@),
            grouped_total(out@) == total_amount(s.take(i as int)),
        decreases s.len() - i,
    {
        let u = &utxos[i];
        let ghost before = out@;
        proof {
            let t = s.take(i + 1);
            assert(t.drop_last() =~= s.take(i as int));
            assert(t.last() == s[i as int]);
        }
        match position_of_tx(&out, u.txid.as_str()) {
            Some(k) => {
                proof {
                    reveal(amounts_summed);
                    let t = s.take(i + 1);
                    assert(t.drop_last() =~= s.take(i as int));
                    assert(t.last() == s[i as int]);
                    assert(before[k as int].amount == amount_of_tx(s.take(i as int), u.txid@));
                    lemma_amount_of_tx_prefix(s, u.txid@, i + 1);
                    assert(amount_of_tx(s, u.txid@) <= u64::MAX);
                }
                let updated = TxTotal {
                    txid: out[k].txid.clone(),
                    block_daa_score: out[k].block_daa_score,
                    amount: out[k].amount + u.amount,
                };
                out.set(k, updated);
                proof {
                    lemma_grouped_total_update(before, k as int, out@[k as int]);
                    assert(out@ == before.update(k as int, out@[k as int]));
                    assert(same_keys(before, out@));
                    lemma_group_add_to_existing(s, i as int, before, k as int, out@);
                }
            },
            None => {
                let entry = TxTotal {
                    txid: u.txid.clone(),
                    block_daa_score: u.block_daa_score,
                    amount: u.amount,
                };
                out.push(entry);
                proof {
                    lemma_group_add_new(s, i as int, before, out@.last());
                    assert(before.push(out@.last()) =~= out@);
                    assert(out@.drop_last() =~= before);
                }
            },
        }
        i = i + 1;
    }
    proof {
        lemma_group_done(s, out@);
        assert(s.take(s.len() as int) =~= s);
    }
    out
}

/// The sum of the outputs of transaction `txid`, when a `u64` holds it.
fn tx_total_fits(utxos: &Vec<UtxoRecord>, txid: &str) -> (b: bool)
    ensures
        b == (amount_of_tx(utxos@, txid@) <= u64::MAX),
{
    let ghost s = utxos@;
    let mut total: u64 = 0;
    let mut j: usize = 0;
    while j < utxos.len()
        invariant
            s == utxos@,
            j <= s.len(),
            total == amount_of_tx(s.take(j as int), txid@),
        decreases s.len() - j,
    {
        proof {
            let t = s.take(j + 1);
            assert(t.drop_last() =~= s.take(j as int));
            assert(t.last() == s[j as int]);
        }
        if same_text(utxos[j].txid.as_str(), txid) {
            match total.checked_add(utxos[j].amount) {
                Some(v) => total = v,
                None => {
                    proof {
                        lemma_amount_of_tx_prefix(s, txid@, j + 1);
                    }
                    return false;
                },
            }
        }
        j = j + 1;
    }
    proof {
        assert(s.take(s.len() as int) =~= s);
    }
    true
}

/// Whether every transaction's outputs add up to an amount a `u64` holds.
fn tx_amounts_fit_check(utxos: &Vec<UtxoRecord>) -> (b: bool)
    ensures
        b == tx_amounts_fit(utxos@),
{
    let ghost s = utxos@;
    let mut i: usize = 0;
    while i < utxos.len()
        invariant
            s == utxos@,
            i <= s.len(),
            forall|k: int| 0 <= k < i ==> amount_of_tx(s, #[trigger] s[k].txid@) <= u64::MAX,
        decreases s.len() - i,
    {
        if !tx_total_fits(utxos, utxos[i].txid.as_str()) {
            return false;
        }
        i = i + 1;
    }
    proof {
        assert forall|txid: Seq<char>| #[trigger] amount_of_tx(s, txid) <= u64::MAX by {
            if exists|k: int| 0 <= k < s.len() && s[k].txid@ == txid {
                let k = choose|k: int| 0 <= k < s.len() && s[k].txid@ == txid;
                assert(amount_of_tx(s, s[k].txid@) <= u64::MAX);
            } else {
                lemma_amount_of_absent_tx(s, txid);
            }
        }
    }
    true
}

/// `group_by_transaction`, or nothing when some transaction's outputs add up
/// to more than a `u64` holds.
pub fn checked_group_by_transaction(utxos: &Vec<UtxoRecord>) -> (r: Option<Vec<TxTotal>>)
    ensures
        r is None <==> !tx_amounts_fit(utxos@),
        r matches Some(out) ==> {
            &&& first_scores(utxos@, out@)
            &&& amounts_summed(utxos@, out@)
            &&& distinct_txids(out@)
            &&& covers_outputs(utxos@, utxos@.len() as int, out@)
            &&& in_order_of_first_output(utxos@, out@)
            &&& grouped_total(out@) == total_amount(utxos@)
        },
{
    if tx_amounts_fit_check(utxos) {
        Some(group_by_transaction(utxos))
    } else {
        None
    }
}

// ---------------------------------------------------------------------------
// The most recent transactions
// ---------------------------------------------------------------------------

/// How many transactions the history shows.
pub const HISTORY_LIMIT: usize = 20;

/// `sorted` with `x` placed after every entry whose DAA score is at least
/// that of `x`, scanning from the end: one step of a stable sort, newest first.
pub open spec fn insert_by_score(sorted: Seq<TxTotal>, x: TxTotal) -> Seq<TxTotal>
    decreases sorted.len(),
{
    if sorted.len() == 0 || sorted.last().block_daa_score >= x.block_daa_score {
        sorted.push(x)
    } else {
        insert_by_score(sorted.drop_last(), x).push(sorted.last())
    }
}

/// `s` sorted by DAA score from highest to lowest; entries with equal scores
/// keep their order.
pub open spec fn newest_first(s: Seq<TxTotal>) -> Seq<TxTotal>
    decreases s.len(),
{
    if s.len() == 0 {
        s
    } else {
        insert_by_score(newest_first(s.drop_last()), s.last())
    }
}

/// The transactions the history shows: the first `HISTORY_LIMIT` of
/// `newest_first(s)`.
pub open spec fn recent_selection(s: Seq<TxTotal>) -> Seq<TxTotal> {
    let sorted = newest_first(s);
    if sorted.len() <= HISTORY_LIMIT {
        sorted
    } else {
        sorted.take(HISTORY_LIMIT as int)
    }
}

/// DAA scores never increase along `s`.
pub open spec fn scores_non_increasing(s: Seq<TxTotal>) -> bool {
    forall|i: int, j: int|
        0 <= i < j < s.len() ==> #[trigger] s[i].block_daa_score >= #[trigger] s[j].block_daa_score
}

proof fn lemma_insert_by_score_at(s: Seq<TxTotal>, x: TxTotal, j: int)
    requires
        0 <= j <= s.len(),
        forall|m: int| j <= m < s.len() ==> #[trigger] s[m].block_daa_score < x.block_daa_score,
        j == 0 || s[j - 1].block_daa_score >= x.block_daa_score,
    ensures
        insert_by_score(s, x) == s.insert(j, x),
    decreases s.len() - j,
{
    if j == s.len() {
        assert(s.insert(j, x) =~= s.push(x));
    } else {
        let t = s.drop_last();
        assert(s.last().block_daa_score < x.block_daa_score);
        assert forall|m: int| j <= m < t.len() implies #[trigger] t[m].block_daa_score
            < x.block_daa_score by {
            assert(t[m] == s[m]);
        }
        if j > 0 {
            assert(t[j - 1] == s[j - 1]);
        }
        lemma_insert_by_score_at(t, x, j);
        assert(t.insert(j, x).push(s.last()) =~= s.insert(j, x));
    }
}

proof fn lemma_insert_by_score_keeps_order(s: Seq<TxTotal>, x: TxTotal)
    requires
        scores_non_increasing(s),
    ensures
        scores_non_increasing(insert_by_score(s, x)),
        insert_by_score(s, x).to_multiset() == s.to_multiset().insert(x),
        insert_by_score(s, x).len() == s.len() + 1,
    decreases s.len(),
{
    broadcast use vstd::seq_lib::group_to_multiset_ensures;

    if s.len() == 0 || s.last().block_daa_score >= x.block_daa_score {
    } else {
        let t = s.drop_last();
        assert(scores_non_increasing(t)) by {
            assert forall|i: int, j: int| 0 <= i < j < t.len() implies #[trigger] t[i].block_daa_score
                >= #[trigger] t[j].block_daa_score by {
                assert(t[i] == s[i] && t[j] == s[j]);
            }
        }
        lemma_insert_by_score_keeps_order(t, x);
        let r = insert_by_score(t, x);
        let last = s.last();
        assert(forall|m: int| 0 <= m < t.len() ==> #[trigger] t[m].block_daa_score
            >= last.block_daa_score) by {
            assert forall|m: int| 0 <= m < t.len() implies #[trigger] t[m].block_daa_score
                >= last.block_daa_score by {
                assert(t[m] == s[m]);
            }
        }
        assert forall|m: int| 0 <= m < r.len() implies #[trigger] r[m].block_daa_score
            >= last.block_daa_score by {
            assert(r.to_multiset().count(r[m]) > 0);
            assert(r.contains(r[m]));
            if r[m] != x {
                assert(t.to_multiset().count(r[m]) > 0);
                assert(t.contains(r[m]));
            }
        }
        assert(t.push(last) =~= s);
    }
}

/// `newest_first` sorts: scores never increase along it, and it holds the same
/// entries as its input, each as often.
pub proof fn lemma_newest_first_sorted(s: Seq<TxTotal>)
    ensures
        scores_non_increasing(newest_first(s)),
        newest_first(s).to_multiset() == s.to_multiset(),
        newest_first(s).len() == s.len(),
    decreases s.len(),
{
    broadcast use vstd::seq_lib::group_to_multiset_ensures;

    if s.len() > 0 {
        lemma_newest_first_sorted(s.drop_last());
        lemma_insert_by_score_keeps_order(newest_first(s.drop_last()), s.last());
        assert(s.drop_last().push(s.last()) =~= s);
    }
}

/// The history shows at most `HISTORY_LIMIT` transactions, newest first, and
/// every transaction it leaves out is no newer than any it shows.
pub proof fn lemma_recent_selection(s: Seq<TxTotal>)
    ensures
        recent_selection(s).len() == if s.len() <= HISTORY_LIMIT {
            s.len()
        } else {
            HISTORY_LIMIT as nat
        },
        scores_non_increasing(recent_selection(s)),
        forall|i: int, j: int|
            0 <= i < recent_selection(s).len() && recent_selection(s).len() <= j < s.len()
                ==> #[trigger] recent_selection(s)[i].block_daa_score
                >= #[trigger] newest_first(s)[j].block_daa_score,
        forall|i: int|
            0 <= i < recent_selection(s).len() ==> s.contains(#[trigger] recent_selection(s)[i]),
{
    broadcast use vstd::seq_lib::group_to_multiset_ensures;

    lemma_newest_first_sorted(s);
    let sorted = newest_first(s);
    let r = recent_selection(s);
    assert forall|i: int| 0 <= i < r.len() implies s.contains(#[trigger] r[i]) by {
        assert(r[i] == sorted[i]);
        assert(sorted.contains(sorted[i]));
        assert(sorted.to_multiset().count(sorted[i]) > 0);
    }
    assert forall|i: int, j: int| 0 <= i < j < r.len() implies #[trigger] r[i].block_daa_score
        >= #[trigger] r[j].block_daa_score by {
        assert(r[i] == sorted[i] && r[j] == sorted[j]);
    }
    assert forall|i: int, j: int|
        0 <= i < r.len() && r.len() <= j < s.len() implies #[trigger] r[i].block_daa_score
        >= #[trigger] sorted[j].block_daa_score by {
        assert(r[i] == sorted[i]);
    }
}

/// An entry with the same contents as `t`.
fn copy_total(t: &TxTotal) -> (r: TxTotal)
    ensures
        r == *t,
{
    TxTotal { txid: t.txid.clone(), block_daa_score: t.block_daa_score, amount: t.amount }
}

/// The transactions the history shows, newest first: a stable sort of `totals`
/// by DAA score, highest first, cut to `HISTORY_LIMIT` entries.
pub fn select_recent(totals: &Vec<TxTotal>) -> (r: Vec<TxTotal>)
    ensures
        r@ == recent_selection(totals@),
{
    let mut sorted: Vec<TxTotal> = Vec::new();
    let mut i: usize = 0;
    while i < totals.len()
        invariant
            i <= totals@.len(),
            sorted@ == newest_first(totals@.take(i as int)),
        decreases totals@.len() - i,
    {
        let x = copy_total(&totals[i]);
        let mut j: usize = sorted.len();
        while j > 0 && sorted[j - 1].block_daa_score < x.block_daa_score
            invariant
                j <= sorted@.len(),
                forall|m: int| j <= m < sorted@.len() ==> #[trigger] sorted@[m].block_daa_score
                    < x.block_daa_score,
            decreases j,
        {
            j = j - 1;
        }
        proof {
            lemma_insert_by_score_at(sorted@, x, j as int);
            let t = totals@.take(i + 1);
            assert(t.drop_last() =~= totals@.take(i as int));
            assert(t.last() == totals@[i as int]);
        }
        sorted.insert(j, x);
        i = i + 1;
    }
    proof {
        assert(totals@.take(totals@.len() as int) =~= totals@);
    }
    sorted.truncate(HISTORY_LIMIT);
    sorted
}

// ---------------------------------------------------------------------------
// Labels of the history
// ---------------------------------------------------------------------------

/// The DAA scores of `totals`, in order: what the wallet asks the node to
/// turn into timestamps.
pub fn daa_scores(totals: &Vec<TxTotal>) -> (r: Vec<u64>)
    ensures
        r@.len() == totals@.len(),
        forall|k: int| 0 <= k < r@.len() ==> #[trigger] r@[k] == totals@[k].block_daa_score,
{
    let mut r: Vec<u64> = Vec::new();
    let mut i: usize = 0;
    while i < totals.len()
        invariant
            i <= totals@.len(),
            r@.len() == i,
            forall|k: int| 0 <= k < i ==> #[trigger] r@[k] == totals@[k].block_daa_score,
        decreases totals@.len() - i,
    {
        r.push(totals[i].block_daa_score);
        i = i + 1;
    }
    r
}

/// The last of the first `n` positions of `daas` that holds `daa`: where a
/// map built by zipping `daas` with another list finds the value for `daa`.
pub open spec fn paired_position(daas: Seq<u64>, n: int, daa: u64) -> Option<int>
    decreases n,
{
    if n <= 0 {
        None
    } else if daas[n - 1] == daa {
        Some(n - 1)
    } else {
        paired_position(daas, n - 1, daa)
    }
}

/// The number of pairs when `daas` is zipped with a list of `m` values.
pub open spec fn zipped_len(daas: Seq<u64>, m: int) -> int {
    if daas.len() <= m {
        daas.len() as int
    } else {
        m
    }
}

/// The timestamp paired with `daa` when the scores `daas` are zipped with the
/// timestamps `stamps` into a map.
pub open spec fn paired_timestamp(daas: Seq<u64>, stamps: Seq<u64>, daa: u64) -> Option<u64> {
    match paired_position(daas, zipped_len(daas, stamps.len() as int), daa) {
        Some(p) => Some(stamps[p]),
        None => None,
    }
}

/// Where `paired_position` finds `daa` among the first `n` scores.
pub fn position_for(daas: &Vec<u64>, n: usize, daa: u64) -> (r: Option<usize>)
    requires
        n <= daas@.len(),
    ensures
        match r {
            Some(p) => paired_position(daas@, n as int, daa) == Some(p as int),
            None => paired_position(daas@, n as int, daa) is None,
        },
        r matches Some(p) ==> p < n,
{
    let mut k: usize = n;
    while k > 0
        invariant
            k <= n <= daas@.len(),
            paired_position(daas@, n as int, daa) == paired_position(daas@, k as int, daa),
        decreases k,
    {
        if daas[k - 1] == daa {
            return Some(k - 1);
        }
        k = k - 1;
    }
    None
}

/// The label of a transaction whose timestamp is unknown.
pub open spec fn score_label(daa: u64) -> Seq<char> {
    "DAA Score: "@ + decimal(daa as nat)
}

/// `DAA Score: <daa>`.
pub fn daa_score_label(daa: u64) -> (r: String)
    ensures
        r@ == score_label(daa),
{
    concat2("DAA Score: ", decimal_string(daa).as_str())
}

/// Splits a timestamp in milliseconds into whole seconds and the nanoseconds
/// of the remaining milliseconds.
pub fn split_millis(ms: u64) -> (r: (i64, u32))
    ensures
        r.0 == ms / 1000,
        r.1 == (ms % 1000) * 1_000_000,
{
    let secs: u64 = ms / 1000;
    let nanos: u64 = (ms % 1000) * 1_000_000;
    (secs as i64, nanos as u32)
}

/// The label of a transaction given the local time formed for it, if one was.
pub open spec fn label_text(daa: u64, local_time: Option<String>) -> Seq<char> {
    match local_time {
        Some(t) => t@,
        None => score_label(daa),
    }
}

/// The label of a transaction: the local date and time when one could be
/// formed, else its DAA score.
pub fn label_or_score(daa: u64, local_time: Option<String>) -> (r: String)
    ensures
        r@ == label_text(daa, local_time),
{
    match local_time {
        Some(t) => t,
        None => daa_score_label(daa),
    }
}

/// A chrono format string made only of the specifiers `%Y %m %d %H %M %S`
/// and plain text: one that chrono formats without error.
pub open spec fn plain_time_pattern(f: Seq<char>) -> bool {
    forall|i: int|
        #![trigger f[i]]
        0 <= i < f.len() && f[i] == '%' ==> i + 1 < f.len() && (f[i + 1] == 'Y' || f[i + 1] == 'm'
            || f[i + 1] == 'd' || f[i + 1] == 'H' || f[i + 1] == 'M' || f[i + 1] == 'S')
}

/// How the history writes a local date and time: `2024-01-31 17:05:09`.
pub const HISTORY_TIME_FORMAT: &'static str = "%Y-%m-%d %H:%M:%S";

/// `HISTORY_TIME_FORMAT` is one that chrono formats without error.
proof fn lemma_history_format_is_plain()
    ensures
        plain_time_pattern(HISTORY_TIME_FORMAT@),
{
    reveal_strlit("%Y-%m-%d %H:%M:%S");
    let f = HISTORY_TIME_FORMAT@;
    assert(f =~= "%Y-%m-%d %H:%M:%S"@);
    assert(f.len() == 17);
    assert forall|i: int| 0 <= i < f.len() && #[trigger] f[i] == '%' implies i + 1 < f.len() && (f[i + 1]
        == 'Y' || f[i + 1] == 'm' || f[i + 1] == 'd' || f[i + 1] == 'H' || f[i + 1] == 'M' || f[i
        + 1] == 'S') by {
        assert(i == 0 || i == 3 || i == 6 || i == 9 || i == 12 || i == 15);
    }
}

/// The last second, counted from the Unix epoch, of the dates chrono
/// represents (the end of the year 262142).
pub open spec fn last_chrono_second() -> int {
    8_210_266_876_799
}

/// `Local.timestamp_opt(secs, nanos).single()` formatted with `format`
/// (chrono): the date and time in this machine's time zone. `timestamp_opt`
/// answers a single local time for every instant that `DateTime::from_timestamp`
/// accepts, which takes every non-negative second up to the end of chrono's
/// last year with fewer than 10^9 nanoseconds, and refuses every second after
/// that last date (`NaiveDate::from_num_days_from_ce_opt` answers `None`
/// there); that much is claimed. What the text holds depends on the time zone
/// and is not stated.
#[verifier::external_body]
fn local_date_time(secs: i64, nanos: u32, format: &str) -> (r: Option<String>)
    requires
        plain_time_pattern(format@),
    ensures
        0 <= secs <= last_chrono_second() && nanos < 1_000_000_000 ==> r is Some,
        secs > last_chrono_second() ==> r is None,
{
    chrono::Local.timestamp_opt(secs, nanos).single().map(|dt| dt.format(format).to_string())
}

/// The local date and time of a timestamp in milliseconds, in
/// `HISTORY_TIME_FORMAT`: that of the instant `ms / 1000` seconds after the
/// epoch, which exists exactly when that second is within chrono's dates. What
/// it holds depends on this machine's time zone and is not stated.
pub fn stamp_label(ms: u64) -> (r: Option<String>)
    ensures
        ms / 1000 <= last_chrono_second() ==> r is Some,
        ms / 1000 > last_chrono_second() ==> r is None,
{
    let (secs, nanos) = split_millis(ms);
    proof {
        lemma_history_format_is_plain();
    }
    local_date_time(secs, nanos, HISTORY_TIME_FORMAT)
}

/// `times` could be the local times of `stamps`: one for each, present exactly
/// for the timestamps whose second lies within chrono's dates.
pub open spec fn local_times_of(stamps: Seq<u64>, times: Seq<Option<String>>) -> bool {
    &&& times.len() == stamps.len()
    &&& forall|i: int|
        0 <= i < times.len() ==> (#[trigger] times[i] is Some <==> stamps[i] / 1000
            <= last_chrono_second())
}

/// The local times of the timestamps `stamps`, one for each, as `stamp_label`
/// forms them.
pub fn local_times(stamps: &Vec<u64>) -> (r: Vec<Option<String>>)
    ensures
        local_times_of(stamps@, r@),
{
    let mut r: Vec<Option<String>> = Vec::new();
    let mut i: usize = 0;
    while i < stamps.len()
        invariant
            i <= stamps@.len(),
            r@.len() == i,
            forall|k: int|
                0 <= k < i ==> (#[trigger] r@[k] is Some <==> stamps@[k] / 1000
                    <= last_chrono_second()),
        decreases stamps@.len() - i,
    {
        r.push(stamp_label(stamps[i]));
        i = i + 1;
    }
    r
}

/// The label of the transaction with DAA score `daa`: that of the local time
/// paired with its score, when the scores `daas` are zipped with the local
/// times `times` of the node's timestamps; the DAA score when no time is
/// paired with it, or the paired instant had no single local time.
pub open spec fn history_label(daas: Seq<u64>, times: Seq<Option<String>>, daa: u64) -> Seq<char> {
    match paired_position(daas, zipped_len(daas, times.len() as int), daa) {
        Some(p) => label_text(daa, times[p]),
        None => score_label(daa),
    }
}

/// The history the wallet shows for its receive address: the transactions of
/// `select_recent(totals)`, each labelled with the local time paired with its
/// DAA score (`times` are the local times of the timestamps that the node gave
/// for `daas`).
pub fn labelled_history(
    totals: &Vec<TxTotal>,
    daas: &Vec<u64>,
    times: &Vec<Option<String>>,
    receive_address: &str,
) -> (r: Vec<Transaction>)
    ensures
        r@.len() == recent_selection(totals@).len(),
        forall|k: int|
            0 <= k < r@.len() ==> {
                let t = #[trigger] recent_selection(totals@)[k];
                &&& r@[k].txid@ == t.txid@
                &&& r@[k].to_address@ == receive_address@
                &&& r@[k].amount == t.amount
                &&& r@[k].timestamp@ == history_label(daas@, times@, t.block_daa_score)
            },
{
    let chosen = select_recent(totals);
    let n: usize = if daas.len() <= times.len() {
        daas.len()
    } else {
        times.len()
    };
    let mut r: Vec<Transaction> = Vec::new();
    let mut i: usize = 0;
    while i < chosen.len()
        invariant
            chosen@ == recent_selection(totals@),
            n == zipped_len(daas@, times@.len() as int),
            n <= daas@.len(),
            n <= times@.len(),
            i <= chosen@.len(),
            r@.len() == i,
            forall|k: int|
                0 <= k < i ==> {
                    let t = #[trigger] chosen@[k];
                    &&& r@[k].txid@ == t.txid@
                    &&& r@[k].to_address@ == receive_address@
                    &&& r@[k].amount == t.amount
                    &&& r@[k].timestamp@ == history_label(daas@, times@, t.block_daa_score)
                },
        decreases chosen@.len() - i,
    {
        let t = &chosen[i];
        let time = match position_for(daas, n, t.block_daa_score) {
            Some(p) => match &times[p] {
                Some(s) => Some(s.clone()),
                None => None,
            },
            None => None,
        };
        let label = label_or_score(t.block_daa_score, time);
        r.push(
            Transaction {
                txid: t.txid.clone(),
                to_address: receive_address.to_owned(),
                amount: t.amount,
                timestamp: label,
            },
        );
        i = i + 1;
    }
    r
}

/// Each entry of `r` is labelled by `history_label` over the local times
/// `times`.
pub open spec fn labelled_by(
    r: Seq<Transaction>,
    totals: Seq<TxTotal>,
    daas: Seq<u64>,
    times: Seq<Option<String>>,
) -> bool {
    forall|k: int|
        0 <= k < r.len() ==> #[trigger] r[k].timestamp@ == history_label(
            daas,
            times,
            recent_selection(totals)[k].block_daa_score,
        )
}

/// The history the wallet shows for its receive address: `labelled_history`
/// with the local times of the timestamps `stamps` that the node gave for
/// `daas`. Each label is that of the local time paired with the entry's DAA
/// score, for local times that exist for every timestamp within chrono's dates;
/// their text rests on this machine's time zone. Where no timestamp is paired
/// with the score, the label is the score.
pub fn recent_history(
    totals: &Vec<TxTotal>,
    daas: &Vec<u64>,
    stamps: &Vec<u64>,
    receive_address: &str,
) -> (r: Vec<Transaction>)
    ensures
        r@.len() == recent_selection(totals@).len(),
        forall|k: int|
            0 <= k < r@.len() ==> {
                let t = #[trigger] recent_selection(totals@)[k];
                &&& r@[k].txid@ == t.txid@
                &&& r@[k].to_address@ == receive_address@
                &&& r@[k].amount == t.amount
                &&& paired_timestamp(daas@, stamps@, t.block_daa_score) is None
                    ==> r@[k].timestamp@ == score_label(t.block_daa_score)
            },
        exists|times: Seq<Option<String>>|
            #[trigger] local_times_of(stamps@, times) && labelled_by(r@, totals@, daas@, times),
{
    let times = local_times(stamps);
    let r = labelled_history(totals, daas, &times, receive_address);
    proof {
        assert(local_times_of(stamps@, times@));
        assert(labelled_by(r@, totals@, daas@, times@));
    }
    r
}

} // verus!
