use vstd::prelude::*;
use crate::instructions::{standard_byte, Standard};
use crate::model::{batch_views, AccountMeta, Instruction, InstructionView, Pubkey, views};
use crate::transaction::{
    law_packing_keeps_every_instruction, packed, packing_compiles, payload_limit, try_pack_instructions,
};
use nifty_asset::types::{ExtensionType as Ext, Standard as Std};
use nifty_asset::{mint, AssetArgs, ExtensionArgs, MintAccounts, MintIxArgs};
#[allow(deprecated)]
use solana_program::borsh0_10::try_from_slice_unchecked as decode;

verus! {

/// The kinds of extension data an asset can carry, in the order of the
/// program's own list; `Unset` is the
/// program's "none" kind.
#[derive(Clone, Copy, PartialEq, Eq, Structural)]
pub enum ExtensionType {
    Unset,
    Attributes,
    Blob,
    Creators,
    Links,
    Metadata,
    Grouping,
    Royalties,
    Manager,
    Proxy,
    Properties,
    Bucket,
}

/// The byte that stands for an extension kind.
pub open spec fn extension_byte(t: ExtensionType) -> u8 {
    match t {
        ExtensionType::Unset => 0,
        ExtensionType::Attributes => 1,
        ExtensionType::Blob => 2,
        ExtensionType::Creators => 3,
        ExtensionType::Links => 4,
        ExtensionType::Metadata => 5,
        ExtensionType::Grouping => 6,
        ExtensionType::Royalties => 7,
        ExtensionType::Manager => 8,
        ExtensionType::Proxy => 9,
        ExtensionType::Properties => 10,
        ExtensionType::Bucket => 11,
    }
}

/// One extension of an asset: its kind and its encoded data.
pub struct ExtensionData {
    pub extension_type: ExtensionType,
    pub data: Vec<u8>,
}

/// The extensions as kind bytes and data.
pub open spec fn extension_views(exts: Seq<ExtensionData>) -> Seq<(u8, Seq<u8>)> {
    exts.map_values(|e: ExtensionData| (extension_byte(e.extension_type), e.data@))
}

/// An asset to mint, as an asset file describes it once its extension
/// values are encoded.
pub struct AssetData {
    pub name: String,
    pub mutable: bool,
    pub owner: Pubkey,
    pub extensions: Vec<ExtensionData>,
}

/// The instructions that `nifty_asset::mint` returns to mint an asset: the
/// allocation (and writes) of each extension, then the creation.
pub uninterp spec fn minted(
    asset: Seq<u8>,
    owner: Seq<u8>,
    payer: Option<Seq<u8>>,
    name: Seq<char>,
    standard: u8,
    mutable: bool,
    extensions: Seq<(u8, Seq<u8>)>,
) -> Seq<InstructionView>;

/// `nifty_asset::mint`: the instructions that mint an asset with the given
/// extensions, in the order they must run. The standard and the extension
/// kinds are handed over by their positions, which `borsh` decoding turns
/// into the program's values. Its source never returns its
/// error; it panics only when the name is too long for a four-byte length.
#[verifier::external_body]
fn mint_ixs(asset: Pubkey, owner: Pubkey, payer: Pubkey, name: String, standard: Standard, mutable: bool, exts: Vec<ExtensionData>) -> (r: Vec<Instruction>)
    requires
        vstd::utf8::encode_utf8(name@).len() <= u32::MAX,
    ensures
        views(r@) == minted(asset@, owner@, Some(payer@), name@,
            standard_byte(standard), mutable, extension_views(exts@)),
{
    mint(MintIxArgs {
        accounts: MintAccounts { asset: asset.into(), owner: owner.into(), payer: Some(payer.into()) },
        asset_args: AssetArgs { name, standard: decode::<Std>(&[standard as u8]).unwrap(), mutable },
        extension_args: exts.into_iter().map(|e| ExtensionArgs { extension_type: decode::<Ext>(&[e.extension_type as u8]).unwrap(), data: e.data }).collect(),
    }).unwrap().into_iter().map(|ix| Instruction { program_id: ix.program_id.to_bytes(),
        accounts: ix.accounts.iter().map(|m| AccountMeta { pubkey: m.pubkey.to_bytes(), is_signer: m.is_signer, is_writable: m.is_writable }).collect(), data: ix.data }).collect()
}

/// The instructions that mint `asset` as described, under the
/// non-fungible standard and paid by `authority`.
pub open spec fn mint_plan(data: AssetData, asset: Pubkey, authority: Pubkey) -> Seq<InstructionView> {
    minted(
        asset@,
        data.owner@,
        Some(authority@),
        data.name@,
        standard_byte(Standard::NonFungible),
        data.mutable,
        extension_views(data.extensions@),
    )
}

/// The transactions that mint `asset` as described: the instructions of
/// the mint, packed in order into batches for transactions signed by
/// the authority and the asset, or `None` when some transaction that
/// packing measures cannot be built.
pub fn mint_transactions(data: AssetData, asset: &Pubkey, authority: &Pubkey) -> (r: Option<
    Vec<Vec<Instruction>>,
>)
    requires
        vstd::utf8::encode_utf8(data.name@).len() <= u32::MAX,
    ensures
        r is Some <==> packing_compiles(*authority, mint_plan(data, *asset, *authority), payload_limit(2)),
        r matches Some(b) ==> batch_views(b@) == packed(
            *authority,
            mint_plan(data, *asset, *authority),
            payload_limit(2),
        ),
        r matches Some(b) ==> batch_views(b@).flatten() == minted(
            asset@,
            data.owner@,
            Some(authority@),
            data.name@,
            0,
            data.mutable,
            extension_views(data.extensions@),
        ),
{
    let ghost plan = mint_plan(data, *asset, *authority);
    let AssetData { name, mutable, owner, extensions } = data;
    let ixs = mint_ixs(*asset, owner, *authority, name, Standard::NonFungible, mutable, extensions);
    assert(views(ixs@) == plan);
    proof {
        law_mint_is_the_owners_and_paid_by_the_authority(data, *asset, *authority);
    }
    try_pack_instructions(2, authority, ixs.as_slice())
}

/// An extension kind's byte is the kind's own discriminant, which is the
/// number that the asset program gives the kind of the same name.
pub proof fn law_extension_byte_is_the_discriminant(t: ExtensionType)
    ensures
        extension_byte(t) == t as u8,
{
}

/// The transactions that mint an asset hold, in order and with nothing
/// else, the instructions that the asset program's client gives for an
/// asset owned by the data's owner and paid by the authority, whatever the
/// authority is: non-fungible (standard byte 0), under the data's name,
/// mutable as the data says, with the data's extensions.
pub proof fn law_mint_is_the_owners_and_paid_by_the_authority(data: AssetData, asset: Pubkey, authority: Pubkey)
    ensures
        mint_plan(data, asset, authority) == minted(
            asset@,
            data.owner@,
            Some(authority@),
            data.name@,
            0,
            data.mutable,
            extension_views(data.extensions@),
        ),
        packed(authority, mint_plan(data, asset, authority), payload_limit(2)).flatten() == minted(
            asset@,
            data.owner@,
            Some(authority@),
            data.name@,
            0,
            data.mutable,
            extension_views(data.extensions@),
        ),
{
    law_packing_keeps_every_instruction(authority, mint_plan(data, asset, authority), payload_limit(2));
}

} // verus!
