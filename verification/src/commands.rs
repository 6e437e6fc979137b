use vstd::prelude::*;
use std::path::PathBuf;
use crate::instructions::{
    asset_group, asset_program, burn_ix, compute_budget_program, compute_unit_limit_ix,
    compute_unit_price_ix, create_data, create_ix, group_bytes, instruction_is, is_asset_data,
    le_u32, le_u64, lock_ix, optional_use, revoke_ix, system_program_id, transfer_ix, approve_ix,
    delegate_input_bytes, zero_key, AccountUse, CreateAccounts, DelegateInput, Standard,
};
use crate::model::{Instruction, Pubkey};
use crate::roles::{all_roles_known, first_unknown, parse_roles, roles_of};

verus! {

/// A path on the local file system.
#[verifier::external_type_specification]
#[verifier::external_body]
pub struct ExPathBuf(PathBuf);

/// The arguments of the command that sets a delegate with roles on an asset.
pub struct ApproveArgs {
    pub keypair_path: Option<PathBuf>,
    pub rpc_url: Option<String>,
    pub asset: Pubkey,
    pub delegate: Pubkey,
    /// The roles to grant, by name: "burn", "lock" or "transfer", in any case.
    pub role: Vec<String>,
    /// The price of a compute unit, in micro-lamports.
    pub priority: u64,
}

/// The arguments of the command that burns an asset.
pub struct BurnArgs {
    pub keypair_path: Option<PathBuf>,
    pub rpc_url: Option<String>,
    pub asset: Pubkey,
    /// The account that receives the reclaimed rent; the program's default
    /// when absent.
    pub recipient: Option<Pubkey>,
    pub priority: u64,
}

/// The arguments of the command that creates an asset.
pub struct CreateArgs {
    pub keypair_path: Option<PathBuf>,
    pub rpc_url: Option<String>,
    pub name: String,
    pub asset_keypair_path: Option<PathBuf>,
    pub immutable: bool,
    /// The owner of the new asset; the authority when absent.
    pub owner: Option<Pubkey>,
    pub priority: u64,
}

/// The arguments of the command that locks an asset.
pub struct LockArgs {
    pub keypair_path: Option<PathBuf>,
    pub rpc_url: Option<String>,
    pub asset: Pubkey,
    pub signer_keypair_path: Option<PathBuf>,
    pub priority: u64,
}

/// The arguments of the command that mints an asset described in a file.
pub struct MintArgs {
    pub keypair_path: Option<PathBuf>,
    pub rpc_url: Option<String>,
    pub asset_file_path: PathBuf,
    pub priority: u64,
}

/// The arguments of the command that mints every asset described in the
/// JSON files of a directory.
pub struct MintBatchArgs {
    pub keypair_path: Option<PathBuf>,
    pub rpc_url: Option<String>,
    pub asset_files_dir: PathBuf,
    /// Milliseconds to wait between starting the mints of two assets.
    pub delay: u64,
    pub priority: u64,
}

/// The arguments of the command that revokes roles of a delegate.
pub struct RevokeArgs {
    pub keypair_path: Option<PathBuf>,
    pub rpc_url: Option<String>,
    pub asset: Pubkey,
    /// The roles to revoke, by name.
    pub role: Vec<String>,
    /// Revoke every role and clear the delegate.
    pub all: bool,
    pub priority: u64,
}

/// The arguments of the command that transfers an asset.
pub struct TransferArgs {
    pub keypair_path: Option<PathBuf>,
    pub rpc_url: Option<String>,
    pub asset: Pubkey,
    pub recipient: Pubkey,
    pub priority: u64,
}

/// The compute units a transaction asks for: the estimate from simulating
/// it, or 200 000 when there is none.
pub fn compute_unit_limit(estimate: Option<u64>) -> (r: u64)
    ensures
        r == match estimate {
            Some(units) => units,
            None => 200_000u64,
        },
{
    match estimate {
        Some(units) => units,
        None => 200_000,
    }
}

/// The instructions of a transaction: the compute unit limit (the low 32
/// bits of `compute_units`) and the compute unit price first, then the
/// given instructions in order.
pub fn with_compute_budget(compute_units: u64, micro_lamports: u64, ixs: Vec<Instruction>) -> (r:
    Vec<Instruction>)
    ensures
        r@.len() == ixs@.len() + 2,
        instruction_is(
            r@[0]@,
            compute_budget_program(),
            seq![],
            seq![2u8] + le_u32((compute_units as u32) as nat),
        ),
        instruction_is(r@[1]@, compute_budget_program(), seq![], seq![3u8] + le_u64(micro_lamports as nat)),
        r@.subrange(2, r@.len() as int) == ixs@,
{
    let mut r: Vec<Instruction> = Vec::new();
    r.push(compute_unit_limit_ix(compute_units as u32));
    r.push(compute_unit_price_ix(micro_lamports));
    let mut rest = ixs;
    r.append(&mut rest);
    assert(r@.subrange(2, r@.len() as int) =~= ixs@);
    r
}

/// The instruction that sets `args.delegate` as delegate of `args.asset`
/// with the named roles, signed by `owner`, or the first role name that
/// names no role.
pub fn approve_instruction(args: &ApproveArgs, owner: &Pubkey) -> (r: Result<Instruction, String>)
    requires
        args.role@.len() <= u32::MAX,
    ensures
        r is Ok <==> all_roles_known(args.role@, args.role@.len() as int),
        r matches Ok(ix) ==> instruction_is(
            ix@,
            asset_program(),
            seq![(args.asset@, false, true), (owner@, true, false), (args.delegate@, false, false)],
            seq![3u8] + delegate_input_bytes(Some(roles_of(args.role@))),
        ),
        r matches Err(bad) ==> exists|i: int|
            first_unknown(args.role@, i) && bad@ == (#[trigger] args.role@[i])@,
{
    match parse_roles(&args.role) {
        Ok(roles) => {
            let input = DelegateInput::Roles(roles);
            Ok(approve_ix(&args.asset, owner, &args.delegate, &input))
        },
        Err(bad) => Err(bad),
    }
}

/// The instruction that revokes the named roles of the delegate of
/// `args.asset`, or all of them when `args.all`, signed by `signer`; or the
/// first role name that names no role, which is checked in either case.
pub fn revoke_instruction(args: &RevokeArgs, signer: &Pubkey) -> (r: Result<Instruction, String>)
    requires
        args.role@.len() <= u32::MAX,
    ensures
        r is Ok <==> all_roles_known(args.role@, args.role@.len() as int),
        r matches Ok(ix) ==> instruction_is(
            ix@,
            asset_program(),
            seq![(args.asset@, false, true), (signer@, true, false)],
            seq![6u8] + delegate_input_bytes(
                if args.all { None } else { Some(roles_of(args.role@)) },
            ),
        ),
        r matches Err(bad) ==> exists|i: int|
            first_unknown(args.role@, i) && bad@ == (#[trigger] args.role@[i])@,
{
    match parse_roles(&args.role) {
        Ok(roles) => {
            let input = if args.all {
                DelegateInput::All
            } else {
                DelegateInput::Roles(roles)
            };
            Ok(revoke_ix(&args.asset, signer, &input))
        },
        Err(bad) => Err(bad),
    }
}

/// The use of the group account by a burn: the group written when the
/// asset has one, the asset program as a stand-in when it has none.
pub open spec fn burn_group_use(data: Seq<u8>) -> AccountUse {
    if group_bytes(data) == zero_key() {
        (asset_program(), false, false)
    } else {
        (group_bytes(data), false, true)
    }
}

/// The instruction that burns `args.asset`, signed by `signer`, naming the
/// group that the asset's account data records; `None` when the data holds
/// no asset.
pub fn burn_instruction(args: &BurnArgs, signer: &Pubkey, asset_data: &[u8]) -> (r: Option<
    Instruction,
>)
    ensures
        r is Some <==> is_asset_data(asset_data@),
        r matches Some(ix) ==> instruction_is(
            ix@,
            asset_program(),
            seq![
                (args.asset@, false, true),
                (signer@, true, true),
                optional_use(args.recipient, false, true),
                burn_group_use(asset_data@),
            ],
            seq![1u8],
        ),
{
    match asset_group(asset_data) {
        Some(group) => Some(burn_ix(&args.asset, signer, args.recipient, group)),
        None => None,
    }
}

/// The owner of a new asset: the one given, else the authority.
pub open spec fn owner_or(owner: Option<Pubkey>, authority: Pubkey) -> Pubkey {
    match owner {
        Some(o) => o,
        None => authority,
    }
}

/// The instruction that creates the asset `asset` named `args.name` under
/// the non-fungible standard, with `authority` as authority and payer, the
/// given owner or else the authority as owner, mutable unless
/// `args.immutable`.
pub fn create_instruction(args: &CreateArgs, asset: &Pubkey, authority: &Pubkey) -> (ix: Instruction)
    requires
        vstd::utf8::encode_utf8(args.name@).len() <= u32::MAX,
    ensures
        instruction_is(
            ix@,
            asset_program(),
            seq![
                (asset@, true, true),
                (authority@, false, false),
                (owner_or(args.owner, *authority)@, false, false),
                (asset_program(), false, false),
                (asset_program(), false, false),
                (authority@, true, true),
                (zero_key(), false, false),
            ],
            create_data(args.name@, Standard::NonFungible, !args.immutable),
        ),
{
    let owner = match args.owner {
        Some(o) => o,
        None => *authority,
    };
    let accounts = CreateAccounts {
        asset: *asset,
        authority: *authority,
        authority_signs: false,
        owner,
        group: None,
        group_authority: None,
        payer: Some(*authority),
        system_program: Some(system_program_id()),
    };
    create_ix(&accounts, args.name.clone(), Standard::NonFungible, !args.immutable)
}

/// The instruction that locks `args.asset`, signed by `signer`.
pub fn lock_instruction(args: &LockArgs, signer: &Pubkey) -> (ix: Instruction)
    ensures
        instruction_is(
            ix@,
            asset_program(),
            seq![(args.asset@, false, true), (signer@, true, false)],
            seq![5u8],
        ),
{
    lock_ix(&args.asset, signer)
}

/// The instruction that transfers `args.asset` to `args.recipient`, signed
/// by `signer`, outside any group.
pub fn transfer_instruction(args: &TransferArgs, signer: &Pubkey) -> (ix: Instruction)
    ensures
        instruction_is(
            ix@,
            asset_program(),
            seq![
                (args.asset@, false, true),
                (signer@, true, false),
                (args.recipient@, false, false),
                (asset_program(), false, false),
            ],
            seq![7u8],
        ),
{
    transfer_ix(&args.asset, signer, &args.recipient, None)
}

} // verus!
