use nifty_cli::mint_batch::{failures, record_outcome, AssetResult, TxResult};

#[test]
fn success_has_no_error() {
    let r = TxResult::Success;
    assert!(r.is_success());
    assert!(!r.is_failure());
    assert_eq!(r.get_error(), None);
}

#[test]
fn failure_keeps_its_message() {
    let r = TxResult::Failure("blockhash not found".to_string());
    assert!(!r.is_success());
    assert!(r.is_failure());
    assert_eq!(r.get_error(), Some("blockhash not found"));
}

fn queued() -> Vec<AssetResult> {
    vec![
        AssetResult::pending([1; 32], "first".to_string()),
        AssetResult::pending([2; 32], "second".to_string()),
        AssetResult::pending([3; 32], "third".to_string()),
    ]
}

#[test]
fn a_sent_transaction_changes_nothing() {
    let mut results = queued();
    assert!(record_outcome(&mut results, 1, Ok(())));
    assert!(results.iter().all(|r| r.tx_result.is_success()));
    assert!(failures(&results).is_empty());
}

#[test]
fn a_recorded_failure_is_reported() {
    let mut results = queued();
    assert!(!record_outcome(&mut results, 2, Err("insufficient funds".to_string())));
    assert!(!record_outcome(&mut results, 0, Err("timeout".to_string())));
    assert_eq!(results[2].asset_pubkey, [3; 32]);
    assert!(results[1].tx_result.is_success());
    assert_eq!(
        failures(&results),
        vec![
            ("first".to_string(), "timeout".to_string()),
            ("third".to_string(), "insufficient funds".to_string()),
        ]
    );
}

#[test]
fn failures_of_different_assets_commute() {
    let fresh = || {
        vec![
            AssetResult::pending([1; 32], "one".to_string()),
            AssetResult::pending([2; 32], "two".to_string()),
            AssetResult::pending([3; 32], "three".to_string()),
        ]
    };
    let mut a = fresh();
    assert!(!record_outcome(&mut a, 0, Err("first".to_string())));
    assert!(!record_outcome(&mut a, 2, Err("third".to_string())));
    let mut b = fresh();
    assert!(!record_outcome(&mut b, 2, Err("third".to_string())));
    assert!(record_outcome(&mut b, 1, Ok(())));
    assert!(!record_outcome(&mut b, 0, Err("first".to_string())));
    let expected = vec![
        ("one".to_string(), "first".to_string()),
        ("three".to_string(), "third".to_string()),
    ];
    assert_eq!(failures(&a), expected);
    assert_eq!(failures(&b), expected);
    assert!(a[1].tx_result.is_success() && b[1].tx_result.is_success());
}
