use vecno_wallet::ledger::{
    balance_report, checked_balance_report, checked_group_by_transaction, daa_scores, daa_score_label, group_by_transaction, label_or_score,
    labelled_history, local_times, position_for, recent_history, select_recent, split_millis,
    stamp_label, TxTotal,
    UtxoRecord, HISTORY_LIMIT,
};

fn utxo(address: Option<&str>, txid: &str, amount: u64, daa: u64) -> UtxoRecord {
    UtxoRecord {
        address: address.map(|a| a.to_string()),
        txid: txid.to_string(),
        amount,
        block_daa_score: daa,
    }
}

#[test]
fn balance_splits_receive_and_change() {
    let utxos = vec![
        utxo(Some("vecno:recv"), "t1", 100, 1),
        utxo(Some("vecno:change"), "t2", 40, 2),
        utxo(None, "t3", 2, 3),
        utxo(Some("vecno:recv"), "t4", 5, 4),
    ];
    let r = balance_report(&utxos, "vecno:recv");
    assert_eq!(r.receive_balance, 105);
    assert_eq!(r.change_balance, 42);
    assert_eq!(r.total_balance, 147);
    assert_eq!(r.receive_count, 2);
    assert_eq!(r.change_count, 2);
}

#[test]
fn balance_of_nothing_is_zero() {
    let r = balance_report(&vec![], "vecno:recv");
    assert_eq!(r.total_balance, 0);
    assert_eq!(r.receive_count + r.change_count, 0);
}

#[test]
fn outputs_are_grouped_by_transaction() {
    let utxos = vec![
        utxo(Some("a"), "tx-a", 10, 100),
        utxo(Some("a"), "tx-b", 1, 200),
        utxo(Some("a"), "tx-a", 5, 300),
        utxo(Some("a"), "tx-c", 7, 50),
        utxo(Some("a"), "tx-b", 2, 10),
    ];
    let totals = group_by_transaction(&utxos);
    assert_eq!(
        totals,
        vec![
            TxTotal { txid: "tx-a".into(), block_daa_score: 100, amount: 15 },
            TxTotal { txid: "tx-b".into(), block_daa_score: 200, amount: 3 },
            TxTotal { txid: "tx-c".into(), block_daa_score: 50, amount: 7 },
        ]
    );
}

#[test]
fn recent_selection_is_newest_first_and_stable() {
    let totals = vec![
        TxTotal { txid: "old".into(), block_daa_score: 1, amount: 1 },
        TxTotal { txid: "new".into(), block_daa_score: 9, amount: 2 },
        TxTotal { txid: "mid1".into(), block_daa_score: 5, amount: 3 },
        TxTotal { txid: "mid2".into(), block_daa_score: 5, amount: 4 },
    ];
    let ids: Vec<String> = select_recent(&totals).into_iter().map(|t| t.txid).collect();
    assert_eq!(ids, vec!["new", "mid1", "mid2", "old"]);
}

#[test]
fn history_keeps_the_twenty_newest() {
    let totals: Vec<TxTotal> = (0..30u64)
        .map(|i| TxTotal { txid: format!("t{i}"), block_daa_score: (i * 7) % 30, amount: i })
        .collect();
    let chosen = select_recent(&totals);
    assert_eq!(chosen.len(), HISTORY_LIMIT);
    for w in chosen.windows(2) {
        assert!(w[0].block_daa_score >= w[1].block_daa_score);
    }
    let lowest_kept = chosen.last().unwrap().block_daa_score;
    for t in &totals {
        if !chosen.contains(t) {
            assert!(t.block_daa_score <= lowest_kept);
        }
    }
}

#[test]
fn timestamps_are_paired_by_position_last_wins() {
    let daas = vec![10, 20, 10, 30];
    let stamps: Vec<u64> = vec![1000, 2000, 3000];
    let n = daas.len().min(stamps.len());
    assert_eq!(position_for(&daas, n, 10), Some(2));
    assert_eq!(position_for(&daas, n, 20), Some(1));
    assert_eq!(position_for(&daas, n, 30), None);
    assert_eq!(position_for(&daas, n, 99), None);
    assert_eq!(local_times(&stamps).len(), 3);
}

#[test]
fn labels_without_timestamps_show_the_score() {
    assert_eq!(daa_score_label(12345), "DAA Score: 12345");
    assert_eq!(label_or_score(7, Some("2024-01-01 00:00:00".into())), "2024-01-01 00:00:00");
    assert_eq!(label_or_score(7, None), "DAA Score: 7");
    assert_eq!(split_millis(1_700_000_123_456), (1_700_000_123, 456_000_000));
}

#[test]
fn labels_with_timestamps_are_local_dates() {
    let label = stamp_label(1_700_000_000_000).expect("a single local time");
    assert_eq!(label.len(), 19, "{label}");
    assert_eq!(&label[4..5], "-");
    assert_eq!(&label[7..8], "-");
    assert_eq!(&label[13..14], ":");
}

#[test]
fn recent_history_labels_each_transaction() {
    let totals = vec![
        TxTotal { txid: "a".into(), block_daa_score: 5, amount: 10 },
        TxTotal { txid: "b".into(), block_daa_score: 8, amount: 20 },
    ];
    let daas = daa_scores(&totals);
    assert_eq!(daas, vec![5, 8]);
    let history = recent_history(&totals, &daas, &vec![], "vecno:recv");
    assert_eq!(history.len(), 2);
    assert_eq!(history[0].txid, "b");
    assert_eq!(history[0].amount, 20);
    assert_eq!(history[0].to_address, "vecno:recv");
    assert_eq!(history[0].timestamp, "DAA Score: 8");
    assert_eq!(history[1].timestamp, "DAA Score: 5");
}

#[test]
fn grouping_keeps_every_veni() {
    let utxos = vec![
        utxo(Some("a"), "tx-a", 10, 100),
        utxo(Some("a"), "tx-b", 1, 200),
        utxo(Some("a"), "tx-a", 5, 300),
        utxo(Some("a"), "tx-c", 7, 50),
        utxo(Some("a"), "tx-b", 2, 10),
    ];
    let totals = group_by_transaction(&utxos);
    let grouped: u64 = totals.iter().map(|t| t.amount).sum();
    assert_eq!(grouped, 25);
    assert_eq!(grouped, balance_report(&utxos, "a").total_balance);
}

#[test]
fn history_labels_come_from_the_paired_local_time() {
    let totals = vec![
        TxTotal { txid: "a".into(), block_daa_score: 5, amount: 10 },
        TxTotal { txid: "b".into(), block_daa_score: 8, amount: 20 },
        TxTotal { txid: "c".into(), block_daa_score: 9, amount: 30 },
    ];
    let daas = daa_scores(&totals);
    let times = vec![Some("2024-01-01 10:00:00".to_string()), None];
    let history = labelled_history(&totals, &daas, &times, "vecno:recv");
    assert_eq!(history[0].txid, "c");
    assert_eq!(history[0].timestamp, "DAA Score: 9");
    assert_eq!(history[1].timestamp, "DAA Score: 8");
    assert_eq!(history[2].timestamp, "2024-01-01 10:00:00");
}

#[test]
fn every_timestamp_in_range_gets_a_local_time() {
    assert!(stamp_label(0).is_some());
    assert!(stamp_label(1_700_000_000_000).is_some());
    let times = local_times(&vec![0, 1_700_000_000_000, 86_400_000]);
    assert!(times.iter().all(|t| t.is_some()));
    let totals = vec![TxTotal { txid: "a".into(), block_daa_score: 5, amount: 10 }];
    let history = recent_history(&totals, &vec![5], &vec![1_700_000_000_000], "vecno:recv");
    assert_ne!(history[0].timestamp, "DAA Score: 5");
    assert_eq!(history[0].timestamp.len(), 19);
}

#[test]
fn checked_sums_refuse_what_a_u64_cannot_hold() {
    let fits = vec![utxo(Some("a"), "t1", 5, 1), utxo(Some("b"), "t1", 7, 2), utxo(None, "t2", 1, 3)];
    let report = checked_balance_report(&fits, "a").unwrap();
    assert_eq!(report, balance_report(&fits, "a"));
    assert_eq!(checked_group_by_transaction(&fits), Some(group_by_transaction(&fits)));

    let too_much = vec![utxo(Some("a"), "t1", u64::MAX, 1), utxo(Some("a"), "t2", 1, 2)];
    assert_eq!(checked_balance_report(&too_much, "a"), None);
    assert!(checked_group_by_transaction(&too_much).is_some());

    let one_tx_too_much = vec![utxo(Some("a"), "t1", u64::MAX, 1), utxo(Some("a"), "t1", 1, 2)];
    assert_eq!(checked_group_by_transaction(&one_tx_too_much), None);
}
