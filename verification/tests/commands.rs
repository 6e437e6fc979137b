use nifty_cli::commands::{
    approve_instruction, burn_instruction, compute_unit_limit, create_instruction, lock_instruction,
    revoke_instruction, transfer_instruction, with_compute_budget, ApproveArgs, BurnArgs, CreateArgs,
    LockArgs, RevokeArgs, TransferArgs,
};
use nifty_cli::model::Instruction;

const ASSET_PROGRAM: [u8; 32] = [
    146, 193, 127, 27, 175, 145, 91, 234, 20, 228, 132, 1, 184, 245, 88, 138, 168, 67, 193, 145,
    117, 171, 10, 206, 239, 164, 190, 122, 209, 69, 6, 174,
];
const COMPUTE_BUDGET: [u8; 32] = [
    3, 6, 70, 111, 229, 33, 23, 50, 255, 236, 173, 186, 114, 195, 155, 231, 188, 140, 229, 187,
    197, 247, 18, 107, 44, 67, 155, 58, 64, 0, 0, 0,
];
const ASSET: [u8; 32] = [10; 32];
const SIGNER: [u8; 32] = [11; 32];
const OTHER: [u8; 32] = [12; 32];

fn uses(ix: &Instruction) -> Vec<([u8; 32], bool, bool)> {
    ix.accounts.iter().map(|m| (m.pubkey, m.is_signer, m.is_writable)).collect()
}

fn names(list: &[&str]) -> Vec<String> {
    list.iter().map(|s| s.to_string()).collect()
}

#[test]
fn program_keys_are_those_of_the_programs() {
    assert_eq!(nifty_asset::ID.to_bytes(), ASSET_PROGRAM);
    assert_eq!(solana_sdk::compute_budget::id().to_bytes(), COMPUTE_BUDGET);
}

#[test]
fn approve_encodes_the_roles_in_order() {
    let args = ApproveArgs {
        keypair_path: None,
        rpc_url: None,
        asset: ASSET,
        delegate: OTHER,
        role: names(&["burn", "LOCK"]),
        priority: 0,
    };
    let ix = approve_instruction(&args, &SIGNER).unwrap();
    assert_eq!(ix.program_id, ASSET_PROGRAM);
    assert_eq!(uses(&ix), vec![(ASSET, false, true), (SIGNER, true, false), (OTHER, false, false)]);
    assert_eq!(ix.data, vec![3, 1, 2, 0, 0, 0, 3, 2]);
}

#[test]
fn approve_with_an_unknown_role_names_it() {
    let args = ApproveArgs {
        keypair_path: None,
        rpc_url: None,
        asset: ASSET,
        delegate: OTHER,
        role: names(&["transfer", "mint", "freeze"]),
        priority: 0,
    };
    assert_eq!(approve_instruction(&args, &SIGNER).err(), Some("mint".to_string()));
}

#[test]
fn approve_with_no_role_grants_none() {
    let args = ApproveArgs { keypair_path: None, rpc_url: None, asset: ASSET, delegate: OTHER, role: vec![], priority: 0 };
    assert_eq!(approve_instruction(&args, &SIGNER).unwrap().data, vec![3, 1, 0, 0, 0, 0]);
}

#[test]
fn revoke_all_clears_every_role() {
    let args = RevokeArgs { keypair_path: None, rpc_url: None, asset: ASSET, role: names(&["burn"]), all: true, priority: 0 };
    let ix = revoke_instruction(&args, &SIGNER).unwrap();
    assert_eq!(uses(&ix), vec![(ASSET, false, true), (SIGNER, true, false)]);
    assert_eq!(ix.data, vec![6, 0]);
}

#[test]
fn revoke_named_roles() {
    let args = RevokeArgs { keypair_path: None, rpc_url: None, asset: ASSET, role: names(&["Transfer"]), all: false, priority: 0 };
    assert_eq!(revoke_instruction(&args, &SIGNER).unwrap().data, vec![6, 1, 1, 0, 0, 0, 1]);
}

#[test]
fn revoke_all_still_rejects_an_unknown_role() {
    let args = RevokeArgs { keypair_path: None, rpc_url: None, asset: ASSET, role: names(&["bun"]), all: true, priority: 0 };
    assert_eq!(revoke_instruction(&args, &SIGNER).err(), Some("bun".to_string()));
}

fn asset_data(group: [u8; 32]) -> Vec<u8> {
    let mut d = vec![0u8; 168];
    d[0] = 1;
    d[3] = 1;
    d[36..68].copy_from_slice(&group);
    d
}

#[test]
fn burn_names_the_group_of_the_asset() {
    let args = BurnArgs { keypair_path: None, rpc_url: None, asset: ASSET, recipient: Some(OTHER), priority: 0 };
    let ix = burn_instruction(&args, &SIGNER, &asset_data([7; 32])).unwrap();
    assert_eq!(ix.data, vec![1]);
    assert_eq!(
        uses(&ix),
        vec![(ASSET, false, true), (SIGNER, true, true), (OTHER, false, true), ([7; 32], false, true)]
    );
}

#[test]
fn burn_without_group_or_recipient_uses_the_program_as_stand_in() {
    let args = BurnArgs { keypair_path: None, rpc_url: None, asset: ASSET, recipient: None, priority: 0 };
    let ix = burn_instruction(&args, &SIGNER, &asset_data([0; 32])).unwrap();
    assert_eq!(
        uses(&ix),
        vec![(ASSET, false, true), (SIGNER, true, true), (ASSET_PROGRAM, false, false), (ASSET_PROGRAM, false, false)]
    );
}

#[test]
fn burn_refuses_data_that_holds_no_asset() {
    let args = BurnArgs { keypair_path: None, rpc_url: None, asset: ASSET, recipient: None, priority: 0 };
    assert!(burn_instruction(&args, &SIGNER, &[1, 0, 0, 1]).is_none());
    let mut bad_flag = asset_data([0; 32]);
    bad_flag[3] = 2;
    assert!(burn_instruction(&args, &SIGNER, &bad_flag).is_none());
    let mut bad_standard = asset_data([0; 32]);
    bad_standard[2] = 4;
    assert!(burn_instruction(&args, &SIGNER, &bad_standard).is_none());
}

#[test]
fn create_defaults_the_owner_to_the_authority() {
    let args = CreateArgs {
        keypair_path: None,
        rpc_url: None,
        name: "My Asset".to_string(),
        asset_keypair_path: None,
        immutable: false,
        owner: None,
        priority: 0,
    };
    let ix = create_instruction(&args, &ASSET, &SIGNER);
    assert_eq!(ix.program_id, ASSET_PROGRAM);
    assert_eq!(
        uses(&ix),
        vec![
            (ASSET, true, true),
            (SIGNER, false, false),
            (SIGNER, false, false),
            (ASSET_PROGRAM, false, false),
            (ASSET_PROGRAM, false, false),
            (SIGNER, true, true),
            ([0; 32], false, false),
        ]
    );
    let mut data = vec![2, 8, 0, 0, 0];
    data.extend_from_slice(b"My Asset");
    data.extend_from_slice(&[0, 1, 0]);
    assert_eq!(ix.data, data);
}

#[test]
fn create_an_immutable_asset_for_another_owner() {
    let args = CreateArgs {
        keypair_path: None,
        rpc_url: None,
        name: "é".to_string(),
        asset_keypair_path: None,
        immutable: true,
        owner: Some(OTHER),
        priority: 0,
    };
    let ix = create_instruction(&args, &ASSET, &SIGNER);
    assert_eq!(uses(&ix)[2], (OTHER, false, false));
    assert_eq!(ix.data, vec![2, 2, 0, 0, 0, 0xc3, 0xa9, 0, 0, 0]);
}

#[test]
fn lock_is_signed_by_the_signer() {
    let args = LockArgs { keypair_path: None, rpc_url: None, asset: ASSET, signer_keypair_path: None, priority: 0 };
    let ix = lock_instruction(&args, &OTHER);
    assert_eq!(uses(&ix), vec![(ASSET, false, true), (OTHER, true, false)]);
    assert_eq!(ix.data, vec![5]);
}

#[test]
fn transfer_names_the_recipient() {
    let args = TransferArgs { keypair_path: None, rpc_url: None, asset: ASSET, recipient: OTHER, priority: 0 };
    let ix = transfer_instruction(&args, &SIGNER);
    assert_eq!(
        uses(&ix),
        vec![(ASSET, false, true), (SIGNER, true, false), (OTHER, false, false), (ASSET_PROGRAM, false, false)]
    );
    assert_eq!(ix.data, vec![7]);
}

#[test]
fn compute_units_default_without_an_estimate() {
    assert_eq!(compute_unit_limit(None), 200_000);
    assert_eq!(compute_unit_limit(Some(1234)), 1234);
}

#[test]
fn the_budget_comes_first() {
    let args = TransferArgs { keypair_path: None, rpc_url: None, asset: ASSET, recipient: OTHER, priority: 0 };
    let ix = transfer_instruction(&args, &SIGNER);
    let all = with_compute_budget(300_000, 5, vec![ix]);
    assert_eq!(all.len(), 3);
    assert_eq!(all[0].program_id, COMPUTE_BUDGET);
    assert!(all[0].accounts.is_empty());
    assert_eq!(all[0].data, vec![2, 0xe0, 0x93, 0x04, 0x00]);
    assert_eq!(all[1].program_id, COMPUTE_BUDGET);
    assert_eq!(all[1].data, vec![3, 5, 0, 0, 0, 0, 0, 0, 0]);
    assert_eq!(all[2].data, vec![7]);
}

#[test]
fn the_unit_limit_keeps_the_low_32_bits() {
    let all = with_compute_budget((1u64 << 32) + 7, u64::MAX, vec![]);
    assert_eq!(all[0].data, vec![2, 7, 0, 0, 0]);
    assert_eq!(all[1].data, vec![3, 255, 255, 255, 255, 255, 255, 255, 255]);
}
