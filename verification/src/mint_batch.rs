use vstd::prelude::*;
use crate::model::Pubkey;
use nifty_asset::AssetFile;
use solana_sdk::signature::Keypair;

verus! {

/// The outcome of sending the transactions that mint one asset.
pub enum TxResult {
    Success,
    Failure(String),
}

impl TxResult {
    /// Whether every transaction of the asset went through.
    pub fn is_success(&self) -> (r: bool)
        ensures
            r == (self is Success),
    {
        match self {
            TxResult::Success => true,
            TxResult::Failure(_) => false,
        }
    }

    /// Whether some transaction of the asset failed.
    pub fn is_failure(&self) -> (r: bool)
        ensures
            r == (self is Failure),
    {
        match self {
            TxResult::Success => false,
            TxResult::Failure(_) => true,
        }
    }

    /// The error message of a failed mint, if any.
    pub fn get_error(&self) -> (r: Option<&str>)
        ensures
            match self {
                TxResult::Success => r is None,
                TxResult::Failure(err) => r matches Some(s) && s@ == err@,
            },
    {
        match self {
            TxResult::Success => None,
            TxResult::Failure(err) => Some(err.as_str()),
        }
    }
}

/// An asset file as read from disk.
#[verifier::external_type_specification]
#[verifier::external_body]
pub struct ExAssetFile(AssetFile);

/// A key pair that can sign transactions.
#[verifier::external_type_specification]
#[verifier::external_body]
pub struct ExKeypair(Keypair);

/// An asset queued for minting: its description, the key pair of the new
/// asset account, and its owner.
pub struct AssetStruct {
    pub asset: AssetFile,
    pub asset_sk: Keypair,
    pub owner: Pubkey,
}

/// What became of the mint of one asset.
pub struct AssetResult {
    pub asset_pubkey: Pubkey,
    pub asset_name: String,
    pub tx_result: TxResult,
}

/// The error message of a result, if it is a failure.
pub open spec fn failure_message(t: TxResult) -> Option<Seq<char>> {
    match t {
        TxResult::Success => None,
        TxResult::Failure(err) => Some(err@),
    }
}

/// The failed mints among the results, in order: each asset's name with its
/// error message.
pub open spec fn failure_report(results: Seq<AssetResult>) -> Seq<(Seq<char>, Seq<char>)>
    decreases results.len(),
{
    if results.len() == 0 {
        seq![]
    } else {
        let rest = failure_report(results.drop_last());
        match failure_message(results.last().tx_result) {
            Some(err) => rest.push((results.last().asset_name@, err)),
            None => rest,
        }
    }
}

/// Whether `after` is `before` with asset `i` marked failed with `err`.
pub open spec fn marked_failed(
    before: Seq<AssetResult>,
    after: Seq<AssetResult>,
    i: int,
    err: Seq<char>,
) -> bool {
    &&& after.len() == before.len()
    &&& after[i].asset_pubkey == before[i].asset_pubkey
    &&& after[i].asset_name@ == before[i].asset_name@
    &&& failure_message(after[i].tx_result) == Some(err)
    &&& forall|j: int| 0 <= j < before.len() && j != i ==> #[trigger] after[j] == before[j]
}

impl AssetResult {
    /// The result of an asset whose mint has not failed (yet).
    pub fn pending(asset_pubkey: Pubkey, asset_name: String) -> (r: AssetResult)
        ensures
            r.asset_pubkey == asset_pubkey,
            r.asset_name@ == asset_name@,
            r.tx_result is Success,
    {
        AssetResult { asset_pubkey, asset_name, tx_result: TxResult::Success }
    }
}

/// Records the outcome of one transaction of asset `i`, and says whether
/// its remaining transactions are still to be sent: a success changes
/// nothing, a failure marks the asset failed with the error message and
/// stops it.
pub fn record_outcome(results: &mut Vec<AssetResult>, i: usize, outcome: Result<(), String>) -> (go_on: bool)
    requires
        i < old(results)@.len(),
    ensures
        go_on == (outcome is Ok),
        outcome is Ok ==> final(results)@ == old(results)@,
        outcome matches Err(err) ==> marked_failed(old(results)@, final(results)@, i as int, err@),
{
    match outcome {
        Ok(()) => true,
        Err(err) => {
            let failed = AssetResult {
                asset_pubkey: results[i].asset_pubkey,
                asset_name: results[i].asset_name.clone(),
                tx_result: TxResult::Failure(err),
            };
            results.set(i, failed);
            false
        },
    }
}

/// The failed mints among the results, in order: each asset's name with its
/// error message.
pub fn failures(results: &Vec<AssetResult>) -> (r: Vec<(String, String)>)
    ensures
        r@.len() == failure_report(results@).len(),
        forall|k: int|
            0 <= k < r@.len() ==> (#[trigger] r@[k]).0@ == failure_report(results@)[k].0 && r@[k].1@
                == failure_report(results@)[k].1,
{
    let mut r: Vec<(String, String)> = Vec::new();
    let mut i: usize = 0;
    while i < results.len()
        invariant
            0 <= i <= results.len(),
            r@.len() == failure_report(results@.take(i as int)).len(),
            forall|k: int|
                0 <= k < r@.len() ==> (#[trigger] r@[k]).0@ == failure_report(results@.take(i as int))[k].0
                    && r@[k].1@ == failure_report(results@.take(i as int))[k].1,
        decreases results.len() - i,
    {
        assert(results@.take(i + 1).drop_last() =~= results@.take(i as int));
        let result = &results[i];
        match &result.tx_result {
            TxResult::Success => {},
            TxResult::Failure(err) => {
                r.push((result.asset_name.clone(), err.clone()));
            },
        }
        i += 1;
    }
    assert(results@.take(i as int) =~= results@);
    r
}

proof fn lemma_failure_listed(results: Seq<AssetResult>, i: int, err: Seq<char>)
    requires
        0 <= i < results.len(),
        failure_message(results[i].tx_result) == Some(err),
    ensures
        failure_report(results).contains((results[i].asset_name@, err)),
    decreases results.len(),
{
    let rest = failure_report(results.drop_last());
    if i == results.len() - 1 {
        assert(failure_report(results) == rest.push((results[i].asset_name@, err)));
        assert(failure_report(results)[rest.len() as int] == (results[i].asset_name@, err));
    } else {
        lemma_failure_listed(results.drop_last(), i, err);
        assert(results.drop_last()[i] == results[i]);
        let k = choose|k: int| 0 <= k < rest.len() && rest[k] == (results[i].asset_name@, err);
        match failure_message(results.last().tx_result) {
            Some(e) => {
                assert(failure_report(results)[k] == rest[k]);
            },
            None => {},
        }
    }
}

proof fn lemma_report_entries_fail(results: Seq<AssetResult>, k: int)
    requires
        0 <= k < failure_report(results).len(),
    ensures
        exists|j: int|
            0 <= j < results.len() && failure_message((#[trigger] results[j]).tx_result) == Some(
                failure_report(results)[k].1,
            ) && results[j].asset_name@ == failure_report(results)[k].0,
    decreases results.len(),
{
    let rest = failure_report(results.drop_last());
    if k < rest.len() {
        lemma_report_entries_fail(results.drop_last(), k);
        let j = choose|j: int|
            0 <= j < results.drop_last().len() && failure_message(
                (#[trigger] results.drop_last()[j]).tx_result,
            ) == Some(rest[k].1) && results.drop_last()[j].asset_name@ == rest[k].0;
        assert(results[j] == results.drop_last()[j]);
        match failure_message(results.last().tx_result) {
            Some(e) => {
                assert(failure_report(results)[k] == rest[k]);
            },
            None => {},
        }
    } else {
        let j = results.len() - 1;
        assert(results[j] == results.last());
    }
}

/// A failure that is recorded for an asset is reported at the end, with the
/// asset's name and the error message.
pub proof fn law_recorded_failure_is_reported(
    before: Seq<AssetResult>,
    after: Seq<AssetResult>,
    i: int,
    err: Seq<char>,
)
    requires
        0 <= i < before.len(),
        marked_failed(before, after, i, err),
    ensures
        failure_report(after).contains((before[i].asset_name@, err)),
{
    lemma_failure_listed(after, i, err);
}

/// The report lists only assets whose mint failed, each with its own error
/// message.
pub proof fn law_report_lists_only_failures(results: Seq<AssetResult>)
    ensures
        forall|k: int|
            0 <= k < failure_report(results).len() ==> exists|j: int|
                0 <= j < results.len() && failure_message((#[trigger] results[j]).tx_result) == Some(
                    (#[trigger] failure_report(results)[k]).1,
                ) && results[j].asset_name@ == failure_report(results)[k].0,
{
    assert forall|k: int| 0 <= k < failure_report(results).len() implies exists|j: int|
        0 <= j < results.len() && failure_message((#[trigger] results[j]).tx_result) == Some(
            (#[trigger] failure_report(results)[k]).1,
        ) && results[j].asset_name@ == failure_report(results)[k].0 by {
        lemma_report_entries_fail(results, k);
    }
}

/// Whether two results say the same of an asset: its address, its name,
/// and whether and how its mint failed.
pub open spec fn same_outcome(a: AssetResult, b: AssetResult) -> bool {
    &&& a.asset_pubkey == b.asset_pubkey
    &&& a.asset_name@ == b.asset_name@
    &&& failure_message(a.tx_result) == failure_message(b.tx_result)
}

proof fn lemma_same_outcomes_same_report(a: Seq<AssetResult>, b: Seq<AssetResult>)
    requires
        a.len() == b.len(),
        forall|k: int| 0 <= k < a.len() ==> same_outcome(#[trigger] a[k], b[k]),
    ensures
        failure_report(a) == failure_report(b),
    decreases a.len(),
{
    if a.len() > 0 {
        assert forall|k: int| 0 <= k < a.drop_last().len() implies same_outcome(
            #[trigger] a.drop_last()[k],
            b.drop_last()[k],
        ) by {
            assert(same_outcome(a[k], b[k]));
        }
        lemma_same_outcomes_same_report(a.drop_last(), b.drop_last());
        assert(same_outcome(a[a.len() - 1], b[b.len() - 1]));
    }
}

/// Failures of different assets may be recorded in either order: both
/// orders leave every asset with the same outcome, each failed asset with
/// its own error, and the same report of failures.
pub proof fn law_outcomes_of_different_assets_commute(
    before: Seq<AssetResult>,
    i: int,
    err_i: Seq<char>,
    j: int,
    err_j: Seq<char>,
    i_first: Seq<AssetResult>,
    i_then_j: Seq<AssetResult>,
    j_first: Seq<AssetResult>,
    j_then_i: Seq<AssetResult>,
)
    requires
        0 <= i < before.len(),
        0 <= j < before.len(),
        i != j,
        marked_failed(before, i_first, i, err_i),
        marked_failed(i_first, i_then_j, j, err_j),
        marked_failed(before, j_first, j, err_j),
        marked_failed(j_first, j_then_i, i, err_i),
    ensures
        i_then_j.len() == j_then_i.len(),
        forall|k: int| 0 <= k < before.len() ==> same_outcome(#[trigger] i_then_j[k], j_then_i[k]),
        failure_message(i_then_j[i].tx_result) == Some(err_i),
        failure_message(i_then_j[j].tx_result) == Some(err_j),
        forall|k: int| 0 <= k < before.len() && k != i && k != j ==> #[trigger] i_then_j[k] == before[k],
        failure_report(i_then_j) == failure_report(j_then_i),
{
    assert forall|k: int| 0 <= k < before.len() implies same_outcome(#[trigger] i_then_j[k], j_then_i[k]) by {
        if k != i && k != j {
            assert(i_first[k] == before[k]);
            assert(j_first[k] == before[k]);
        } else if k == i {
            assert(i_then_j[k] == i_first[k]);
        } else {
            assert(j_then_i[k] == j_first[k]);
        }
    }
    assert(i_then_j[i] == i_first[i]);
    assert forall|k: int| 0 <= k < before.len() && k != i && k != j implies #[trigger] i_then_j[k] == before[k] by {
        assert(i_first[k] == before[k]);
    }
    lemma_same_outcomes_same_report(i_then_j, j_then_i);
}

} // verus!
