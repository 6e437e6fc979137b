use nifty_cli::minting::{mint_transactions, AssetData, ExtensionData, ExtensionType};
use solana_sdk::pubkey::Pubkey;

const ASSET: [u8; 32] = [20; 32];
const OWNER: [u8; 32] = [21; 32];
const AUTHORITY: [u8; 32] = [22; 32];

fn direct(name: &str, exts: &[(nifty_asset::types::ExtensionType, Vec<u8>)]) -> Vec<solana_sdk::instruction::Instruction> {
    nifty_asset::mint(nifty_asset::MintIxArgs {
        accounts: nifty_asset::MintAccounts {
            asset: Pubkey::new_from_array(ASSET),
            owner: Pubkey::new_from_array(OWNER),
            payer: Some(Pubkey::new_from_array(AUTHORITY)),
        },
        asset_args: nifty_asset::AssetArgs {
            name: name.to_string(),
            standard: nifty_asset::types::Standard::NonFungible,
            mutable: true,
        },
        extension_args: exts
            .iter()
            .map(|(t, d)| nifty_asset::ExtensionArgs { extension_type: *t, data: d.clone() })
            .collect(),
    })
    .unwrap()
}

#[test]
fn an_asset_without_extensions_is_one_creation() {
    let data = AssetData { name: "Solo".to_string(), mutable: true, owner: OWNER, extensions: vec![] };
    let batches = mint_transactions(data, &ASSET, &AUTHORITY).unwrap();
    assert_eq!(batches.len(), 1);
    assert_eq!(batches[0].len(), 1);
    let expected = &direct("Solo", &[])[0];
    assert_eq!(batches[0][0].data, expected.data);
    assert_eq!(batches[0][0].program_id, expected.program_id.to_bytes());
}

#[test]
fn a_large_extension_is_written_in_chunks_across_transactions() {
    let blob: Vec<u8> = (0..3000u32).map(|i| (i % 251) as u8).collect();
    let data = AssetData {
        name: "Big".to_string(),
        mutable: true,
        owner: OWNER,
        extensions: vec![ExtensionData { extension_type: ExtensionType::Blob, data: blob.clone() }],
    };
    let batches = mint_transactions(data, &ASSET, &AUTHORITY).unwrap();
    let expected = direct("Big", &[(nifty_asset::types::ExtensionType::Blob, blob)]);
    let flat: Vec<_> = batches.iter().flatten().collect();
    assert_eq!(flat.len(), expected.len());
    for (a, b) in flat.iter().zip(expected.iter()) {
        assert_eq!(a.data, b.data);
        assert_eq!(a.accounts.len(), b.accounts.len());
    }
    // The allocation with its 920 bytes does not fit the room that two
    // signatures leave, so it stands alone in the first batch.
    assert_eq!(batches[0].len(), 1);
    assert!(batches.iter().all(|b| !b.is_empty()));
}

#[test]
fn extension_kinds_keep_their_position() {
    let data = AssetData {
        name: "Kinds".to_string(),
        mutable: false,
        owner: OWNER,
        extensions: vec![
            ExtensionData { extension_type: ExtensionType::Bucket, data: vec![1, 2] },
            ExtensionData { extension_type: ExtensionType::Unset, data: vec![] },
        ],
    };
    let batches = mint_transactions(data, &ASSET, &AUTHORITY).unwrap();
    let flat: Vec<_> = batches.iter().flatten().collect();
    // Each allocation carries the kind right after its discriminator.
    assert_eq!(flat[0].data[1], 11);
    assert_eq!(flat[1].data[1], 0);
}
