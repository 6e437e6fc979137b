use vstd::prelude::*;
use crate::model::{AccountMeta, Instruction, InstructionView};
use crate::roles::Role;
use nifty_asset::instructions as nix;
use nifty_asset::types as nty;
use solana_program::pubkey::Pubkey as Key;
use solana_sdk::compute_budget::ComputeBudgetInstruction;
#[allow(deprecated)]
use solana_program::borsh0_10::try_from_slice_unchecked as decode;

verus! {

/// Which roles an approval grants or a revocation withdraws.
pub enum DelegateInput {
    /// Every role the delegate holds.
    All,
    /// The roles named, in order.
    Roles(Vec<Role>),
}

/// The standard an asset is created under, in the order of the program's
/// own list.
#[derive(Clone, Copy, PartialEq, Eq, Structural)]
pub enum Standard {
    NonFungible,
    Managed,
    Soulbound,
    Proxied,
}

/// The key of the asset program.
pub open spec fn asset_program() -> Seq<u8> {
    seq![
        146u8, 193, 127, 27, 175, 145, 91, 234, 20, 228, 132, 1, 184, 245, 88, 138, 168, 67, 193,
        145, 117, 171, 10, 206, 239, 164, 190, 122, 209, 69, 6, 174,
    ]
}

/// The key of the compute budget program.
pub open spec fn compute_budget_program() -> Seq<u8> {
    seq![
        3u8, 6, 70, 111, 229, 33, 23, 50, 255, 236, 173, 186, 114, 195, 155, 231, 188, 140, 229,
        187, 197, 247, 18, 107, 44, 67, 155, 58, 64, 0, 0, 0,
    ]
}

/// A key of 32 zero bytes, that of the system program.
pub open spec fn zero_key() -> Seq<u8> {
    Seq::new(32, |i: int| 0u8)
}

/// An account use: key, whether it signs, whether it is written.
pub type AccountUse = (Seq<u8>, bool, bool);

/// Whether an instruction runs the program on exactly these account uses
/// with exactly this data.
pub open spec fn instruction_is(
    ix: InstructionView,
    program: Seq<u8>,
    uses: Seq<AccountUse>,
    data: Seq<u8>,
) -> bool {
    &&& ix.program_id@ == program
    &&& ix.accounts.len() == uses.len()
    &&& forall|k: int|
        0 <= k < uses.len() ==> (#[trigger] ix.accounts[k]).pubkey@ == uses[k].0
            && ix.accounts[k].is_signer == uses[k].1 && ix.accounts[k].is_writable == uses[k].2
    &&& ix.data == data
}

/// The use of an optional account: the account itself when given, else the
/// asset program as a read-only stand-in.
pub open spec fn optional_use(key: Option<[u8; 32]>, signer: bool, writable: bool) -> AccountUse {
    match key {
        Some(k) => (k@, signer, writable),
        None => (asset_program(), false, false),
    }
}

/// A 32-bit number in four little-endian bytes.
pub open spec fn le_u32(v: nat) -> Seq<u8> {
    seq![(v % 0x100) as u8, (v / 0x100 % 0x100) as u8, (v / 0x10000 % 0x100) as u8, (v / 0x1000000 % 0x100) as u8]
}

/// A 64-bit number in eight little-endian bytes.
pub open spec fn le_u64(v: nat) -> Seq<u8> {
    le_u32(v % 0x100000000) + le_u32(v / 0x100000000 % 0x100000000)
}

/// The byte that stands for a role.
pub open spec fn role_byte(r: Role) -> u8 {
    match r {
        Role::Transfer => 1,
        Role::Lock => 2,
        Role::Burn => 3,
    }
}

/// The byte that stands for a standard.
pub open spec fn standard_byte(s: Standard) -> u8 {
    match s {
        Standard::NonFungible => 0,
        Standard::Managed => 1,
        Standard::Soulbound => 2,
        Standard::Proxied => 3,
    }
}

/// The roles of a delegate input, as spec values.
pub open spec fn input_roles(input: DelegateInput) -> Option<Seq<Role>> {
    match input {
        DelegateInput::All => None,
        DelegateInput::Roles(roles) => Some(roles@),
    }
}

/// The encoding of a delegate input: a tag byte, then for a list of roles
/// its length in four bytes and a byte per role.
pub open spec fn delegate_input_bytes(roles: Option<Seq<Role>>) -> Seq<u8> {
    match roles {
        None => seq![0u8],
        Some(rs) => seq![1u8] + le_u32(rs.len()) + rs.map_values(|r: Role| role_byte(r)),
    }
}

/// Whether a delegate input can be encoded: its list length fits in four
/// bytes.
pub open spec fn input_fits(roles: Option<Seq<Role>>) -> bool {
    roles matches Some(rs) ==> rs.len() <= u32::MAX
}

/// The `Approve` instruction of the asset program, as
/// `nifty_asset::instructions::Approve::instruction` builds it: the asset
/// written, the owner signing, the delegate read, and the data 3 followed by
/// the encoded delegate input.
#[verifier::external_body]
pub(crate) fn approve_ix(asset: &[u8; 32], owner: &[u8; 32], delegate: &[u8; 32], input: &DelegateInput) -> (ix: Instruction)
    requires
        input_fits(input_roles(*input)),
    ensures
        instruction_is(ix@, asset_program(), seq![(asset@, false, true), (owner@, true, false), (delegate@, false, false)],
            seq![3u8] + delegate_input_bytes(input_roles(*input))),
{
    let delegate_input = match input {
        DelegateInput::All => nty::DelegateInput::All,
        DelegateInput::Roles(rs) => nty::DelegateInput::Some { roles: rs.iter().map(|r| match r {
            Role::Transfer => nty::DelegateRole::Transfer, Role::Lock => nty::DelegateRole::Lock, Role::Burn => nty::DelegateRole::Burn }).collect() },
    };
    let ix = nix::Approve { asset: Key::new_from_array(*asset), owner: Key::new_from_array(*owner), delegate: Key::new_from_array(*delegate) }
        .instruction(nix::ApproveInstructionArgs { delegate_input });
    Instruction { program_id: ix.program_id.to_bytes(), accounts: ix.accounts.iter().map(|m| AccountMeta { pubkey: m.pubkey.to_bytes(), is_signer: m.is_signer, is_writable: m.is_writable }).collect(), data: ix.data }
}

/// The `Revoke` instruction of the asset program, as
/// `nifty_asset::instructions::Revoke::instruction` builds it: the asset
/// written, the signer signing, and the data 6 followed by the encoded
/// delegate input.
#[verifier::external_body]
pub(crate) fn revoke_ix(asset: &[u8; 32], signer: &[u8; 32], input: &DelegateInput) -> (ix: Instruction)
    requires
        input_fits(input_roles(*input)),
    ensures
        instruction_is(ix@, asset_program(), seq![(asset@, false, true), (signer@, true, false)],
            seq![6u8] + delegate_input_bytes(input_roles(*input))),
{
    let delegate_input = match input {
        DelegateInput::All => nty::DelegateInput::All,
        DelegateInput::Roles(rs) => nty::DelegateInput::Some { roles: rs.iter().map(|r| match r {
            Role::Transfer => nty::DelegateRole::Transfer, Role::Lock => nty::DelegateRole::Lock, Role::Burn => nty::DelegateRole::Burn }).collect() },
    };
    let ix = nix::Revoke { asset: Key::new_from_array(*asset), signer: Key::new_from_array(*signer) }
        .instruction(nix::RevokeInstructionArgs { delegate_input });
    Instruction { program_id: ix.program_id.to_bytes(), accounts: ix.accounts.iter().map(|m| AccountMeta { pubkey: m.pubkey.to_bytes(), is_signer: m.is_signer, is_writable: m.is_writable }).collect(), data: ix.data }
}

/// The `Burn` instruction of the asset program, as
/// `nifty_asset::instructions::Burn::instruction` builds it: the asset
/// written, the signer signing and written, the rent recipient and the
/// group written when given, and the data 1.
#[verifier::external_body]
pub(crate) fn burn_ix(asset: &[u8; 32], signer: &[u8; 32], recipient: Option<[u8; 32]>, group: Option<[u8; 32]>) -> (ix: Instruction)
    ensures
        instruction_is(ix@, asset_program(), seq![(asset@, false, true), (signer@, true, true),
            optional_use(recipient, false, true), optional_use(group, false, true)], seq![1u8]),
{
    let ix = nix::Burn { asset: Key::new_from_array(*asset), signer: Key::new_from_array(*signer),
        recipient: recipient.map(Key::new_from_array), group: group.map(Key::new_from_array) }.instruction();
    Instruction { program_id: ix.program_id.to_bytes(), accounts: ix.accounts.iter().map(|m| AccountMeta { pubkey: m.pubkey.to_bytes(), is_signer: m.is_signer, is_writable: m.is_writable }).collect(), data: ix.data }
}

/// The `Lock` instruction of the asset program, as
/// `nifty_asset::instructions::Lock::instruction` builds it: the asset
/// written, the signer signing, and the data 5.
#[verifier::external_body]
pub(crate) fn lock_ix(asset: &[u8; 32], signer: &[u8; 32]) -> (ix: Instruction)
    ensures
        instruction_is(ix@, asset_program(), seq![(asset@, false, true), (signer@, true, false)], seq![5u8]),
{
    let ix = nix::Lock { asset: Key::new_from_array(*asset), signer: Key::new_from_array(*signer) }.instruction();
    Instruction { program_id: ix.program_id.to_bytes(), accounts: ix.accounts.iter().map(|m| AccountMeta { pubkey: m.pubkey.to_bytes(), is_signer: m.is_signer, is_writable: m.is_writable }).collect(), data: ix.data }
}

/// The `Transfer` instruction of the asset program, as
/// `nifty_asset::instructions::Transfer::instruction` builds it: the asset
/// written, the signer signing, the recipient and the group read, and the
/// data 7.
#[verifier::external_body]
pub(crate) fn transfer_ix(asset: &[u8; 32], signer: &[u8; 32], recipient: &[u8; 32], group: Option<[u8; 32]>) -> (ix: Instruction)
    ensures
        instruction_is(ix@, asset_program(), seq![(asset@, false, true), (signer@, true, false),
            (recipient@, false, false), optional_use(group, false, false)], seq![7u8]),
{
    let ix = nix::Transfer { asset: Key::new_from_array(*asset), signer: Key::new_from_array(*signer),
        recipient: Key::new_from_array(*recipient), group: group.map(Key::new_from_array) }.instruction();
    Instruction { program_id: ix.program_id.to_bytes(), accounts: ix.accounts.iter().map(|m| AccountMeta { pubkey: m.pubkey.to_bytes(), is_signer: m.is_signer, is_writable: m.is_writable }).collect(), data: ix.data }
}

/// The accounts of a `Create` instruction.
pub struct CreateAccounts {
    pub asset: [u8; 32],
    pub authority: [u8; 32],
    pub authority_signs: bool,
    pub owner: [u8; 32],
    pub group: Option<[u8; 32]>,
    pub group_authority: Option<[u8; 32]>,
    pub payer: Option<[u8; 32]>,
    pub system_program: Option<[u8; 32]>,
}

/// The uses of the accounts of a `Create` instruction, in order.
pub open spec fn create_uses(a: CreateAccounts) -> Seq<AccountUse> {
    seq![
        (a.asset@, true, true),
        (a.authority@, a.authority_signs, false),
        (a.owner@, false, false),
        optional_use(a.group, false, true),
        optional_use(a.group_authority, true, false),
        optional_use(a.payer, true, true),
        optional_use(a.system_program, false, false),
    ]
}

/// The data of a `Create` instruction without extensions: 2, the name as its
/// length in four bytes and its UTF-8 bytes, the standard, whether the asset
/// is mutable, and 0 for no extensions.
pub open spec fn create_data(name: Seq<char>, standard: Standard, mutable: bool) -> Seq<u8> {
    let bytes = vstd::utf8::encode_utf8(name);
    seq![2u8] + le_u32(bytes.len()) + bytes + seq![standard_byte(standard), if mutable { 1u8 } else { 0u8 }, 0u8]
}

/// The `Create` instruction of the asset program without extensions, as
/// `nifty_asset::instructions::Create::instruction` builds it. The standard
/// is handed over by its position among the program's standards, which
/// `borsh` decoding turns into the program's value.
#[verifier::external_body]
pub(crate) fn create_ix(accounts: &CreateAccounts, name: String, standard: Standard, mutable: bool) -> (ix: Instruction)
    requires
        vstd::utf8::encode_utf8(name@).len() <= u32::MAX,
    ensures
        instruction_is(ix@, asset_program(), create_uses(*accounts), create_data(name@, standard, mutable)),
{
    let k = Key::new_from_array;
    let ix = nix::Create { asset: k(accounts.asset), authority: (k(accounts.authority), accounts.authority_signs), owner: k(accounts.owner), group: accounts.group.map(k),
        group_authority: accounts.group_authority.map(k), payer: accounts.payer.map(k), system_program: accounts.system_program.map(k) }
        .instruction(nix::CreateInstructionArgs { name, standard: decode::<nty::Standard>(&[standard as u8]).unwrap(), mutable, extensions: None });
    Instruction { program_id: ix.program_id.to_bytes(), accounts: ix.accounts.iter().map(|m| AccountMeta { pubkey: m.pubkey.to_bytes(), is_signer: m.is_signer, is_writable: m.is_writable }).collect(), data: ix.data }
}

/// The key of the system program, `solana_program::system_program::id()`:
/// 32 zero bytes.
#[verifier::external_body]
pub(crate) fn system_program_id() -> (k: [u8; 32])
    ensures
        k@ == zero_key(),
{
    solana_program::system_program::id().to_bytes()
}

/// `ComputeBudgetInstruction::set_compute_unit_limit`: an instruction of the
/// compute budget program with no accounts and the data 2 followed by the
/// limit in four bytes.
#[verifier::external_body]
pub(crate) fn compute_unit_limit_ix(units: u32) -> (ix: Instruction)
    ensures
        instruction_is(ix@, compute_budget_program(), seq![], seq![2u8] + le_u32(units as nat)),
{
    let ix = ComputeBudgetInstruction::set_compute_unit_limit(units);
    Instruction { program_id: ix.program_id.to_bytes(), accounts: ix.accounts.iter().map(|m| AccountMeta { pubkey: m.pubkey.to_bytes(), is_signer: m.is_signer, is_writable: m.is_writable }).collect(), data: ix.data }
}

/// `ComputeBudgetInstruction::set_compute_unit_price`: an instruction of the
/// compute budget program with no accounts and the data 3 followed by the
/// price in micro-lamports in eight bytes.
#[verifier::external_body]
pub(crate) fn compute_unit_price_ix(micro_lamports: u64) -> (ix: Instruction)
    ensures
        instruction_is(ix@, compute_budget_program(), seq![], seq![3u8] + le_u64(micro_lamports as nat)),
{
    let ix = ComputeBudgetInstruction::set_compute_unit_price(micro_lamports);
    Instruction { program_id: ix.program_id.to_bytes(), accounts: ix.accounts.iter().map(|m| AccountMeta { pubkey: m.pubkey.to_bytes(), is_signer: m.is_signer, is_writable: m.is_writable }).collect(), data: ix.data }
}

/// Whether account data holds an asset: at least the 168 bytes of the
/// fixed layout, with a valid kind, state, standard and mutability flag.
pub open spec fn is_asset_data(d: Seq<u8>) -> bool {
    &&& d.len() >= 168
    &&& d[0] < 2
    &&& d[1] < 2
    &&& d[2] < 4
    &&& d[3] < 2
}

/// The group field of asset data: the 32 bytes after the owner.
pub open spec fn group_bytes(d: Seq<u8>) -> Seq<u8> {
    d.subrange(36, 68)
}

/// The group of an asset, read from its account data with
/// `nifty_asset::Asset::from_bytes` and `to_option`: `None` when the data is
/// no asset; else no group when the group field is all zeros, and the group
/// key otherwise.
#[verifier::external_body]
pub(crate) fn asset_group(data: &[u8]) -> (r: Option<Option<[u8; 32]>>)
    ensures
        r is Some <==> is_asset_data(data@),
        r matches Some(g) ==> (g is None <==> group_bytes(data@) == zero_key()),
        r matches Some(Some(k)) ==> k@ == group_bytes(data@),
{
    match nifty_asset::Asset::from_bytes(data) {
        Ok(asset) => Some(asset.group.to_option().map(|k| k.to_bytes())),
        Err(_) => None,
    }
}

} // verus!
