use nifty_cli::asset_file::{
    blob_paths, is_json_file_name, mint_transactions_from_file, read_asset_file, ExtensionValueData,
    MintFileError,
};
use solana_sdk::pubkey::Pubkey;

const ASSET: [u8; 32] = [30; 32];
const OWNER: [u8; 32] = [31; 32];
const AUTHORITY: [u8; 32] = [32; 32];

fn asset_json(extensions: &str) -> Vec<u8> {
    format!(
        "{{\"name\":\"Filed\",\"standard\":\"NonFungible\",\"mutable\":true,\"extensions\":[{}],\"owner\":\"{}\",\"asset_keypair_path\":\"keys/asset.json\"}}",
        extensions,
        Pubkey::new_from_array(OWNER)
    )
    .into_bytes()
}

const ATTRIBUTE_AND_BLOB: &str = "{\"extension_type\":\"Attributes\",\"value\":[{\"name\":\"color\",\"value\":\"red\"}]},{\"extension_type\":\"Blob\",\"value\":{\"content_type\":\"image/png\",\"path\":\"img.png\"}}";

fn direct(exts: Vec<(nifty_asset::types::ExtensionType, Vec<u8>)>) -> Vec<solana_sdk::instruction::Instruction> {
    nifty_asset::mint(nifty_asset::MintIxArgs {
        accounts: nifty_asset::MintAccounts {
            asset: Pubkey::new_from_array(ASSET),
            owner: Pubkey::new_from_array(OWNER),
            payer: Some(Pubkey::new_from_array(AUTHORITY)),
        },
        asset_args: nifty_asset::AssetArgs {
            name: "Filed".to_string(),
            standard: nifty_asset::types::Standard::NonFungible,
            mutable: true,
        },
        extension_args: exts
            .into_iter()
            .map(|(t, d)| nifty_asset::ExtensionArgs { extension_type: t, data: d })
            .collect(),
    })
    .unwrap()
}

#[test]
fn an_asset_file_reads_into_its_fields() {
    let fields = read_asset_file(&asset_json(ATTRIBUTE_AND_BLOB)).unwrap();
    assert_eq!(fields.name, "Filed");
    assert_eq!(fields.standard, 0);
    assert!(fields.mutable);
    assert_eq!(fields.owner, OWNER);
    assert_eq!(fields.asset_keypair_path.as_deref(), Some("keys/asset.json"));
    assert_eq!(fields.extensions.len(), 2);
    assert_eq!(fields.extensions[0].kind, 1);
    assert_eq!(fields.extensions[1].kind, 2);
    // Color then red, each after its length.
    match &fields.extensions[0].value {
        ExtensionValueData::Encoded(d) => assert_eq!(d, &b"\x05color\x03red".to_vec()),
        ExtensionValueData::Blob { .. } => panic!("attributes read as a blob"),
    }
    assert_eq!(blob_paths(&fields), vec!["img.png".to_string()]);
}

#[test]
fn an_asset_file_mints_what_its_extensions_encode() {
    let blob = vec![7u8, 8, 9];
    let batches =
        mint_transactions_from_file(&asset_json(ATTRIBUTE_AND_BLOB), &vec![blob.clone()], &ASSET, &AUTHORITY)
            .unwrap();
    let mut blob_data = vec![9u8];
    blob_data.extend(b"image/png");
    blob_data.extend(&blob);
    let expected = direct(vec![
        (nifty_asset::types::ExtensionType::Attributes, b"\x05color\x03red".to_vec()),
        (nifty_asset::types::ExtensionType::Blob, blob_data),
    ]);
    let flat: Vec<_> = batches.iter().flatten().collect();
    assert_eq!(flat.len(), expected.len());
    for (a, b) in flat.iter().zip(expected.iter()) {
        assert_eq!(a.data, b.data);
        assert_eq!(a.program_id, b.program_id.to_bytes());
    }
}

#[test]
fn an_asset_file_without_extensions_is_one_creation() {
    let batches = mint_transactions_from_file(&asset_json(""), &vec![], &ASSET, &AUTHORITY).unwrap();
    assert_eq!(batches.len(), 1);
    assert_eq!(batches[0].len(), 1);
    assert_eq!(batches[0][0].data, direct(vec![])[0].data);
}

#[test]
fn text_that_is_no_asset_file_is_refused() {
    assert!(read_asset_file(b"{}").is_none());
    assert_eq!(
        mint_transactions_from_file(b"not json", &vec![], &ASSET, &AUTHORITY).err(),
        Some(MintFileError::NotAnAssetFile)
    );
    assert_eq!(
        mint_transactions_from_file(b"{\"name\":\"x\"}", &vec![], &ASSET, &AUTHORITY).err(),
        Some(MintFileError::NotAnAssetFile)
    );
}

#[test]
fn blob_contents_must_match_the_blobs() {
    let json = asset_json(ATTRIBUTE_AND_BLOB);
    assert_eq!(
        mint_transactions_from_file(&json, &vec![], &ASSET, &AUTHORITY).err(),
        Some(MintFileError::BlobCountMismatch)
    );
    assert_eq!(
        mint_transactions_from_file(&json, &vec![vec![1], vec![2]], &ASSET, &AUTHORITY).err(),
        Some(MintFileError::BlobCountMismatch)
    );
}

#[test]
fn only_json_file_names_are_asset_files() {
    assert!(is_json_file_name(b"asset.json"));
    assert!(is_json_file_name(b"a.b.json"));
    assert!(!is_json_file_name(b".json"));
    assert!(!is_json_file_name(b"json"));
    assert!(!is_json_file_name(b"asset.JSON"));
    assert!(!is_json_file_name(b"asset.json.bak"));
    assert!(!is_json_file_name(b"assetjson"));
}
