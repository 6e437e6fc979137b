use vstd::prelude::*;
use crate::instructions::{standard_byte, Standard};
use crate::minting::{extension_byte, extension_views, minted, mint_plan, mint_transactions, AssetData, ExtensionData, ExtensionType};
use crate::model::{batch_views, InstructionView, Instruction, Pubkey};
use crate::transaction::{law_packing_keeps_every_instruction, packed, packing_compiles, payload_limit};
use vstd::utf8::encode_utf8;
use nifty_asset::{AssetFile, ExtensionValue};

verus! {

/// The value of an extension as an asset file gives it: data that is
/// already encoded, or a blob whose contents stand in a file of their own.
pub enum ExtensionValueData {
    Encoded(Vec<u8>),
    Blob { content_type: String, path: String },
}

/// An extension value as plain sequences.
pub enum ExtensionValueView {
    Encoded(Seq<u8>),
    Blob { content_type: Seq<char>, path: Seq<char> },
}

impl View for ExtensionValueData {
    type V = ExtensionValueView;

    open spec fn view(&self) -> ExtensionValueView {
        match self {
            ExtensionValueData::Encoded(d) => ExtensionValueView::Encoded(d@),
            ExtensionValueData::Blob { content_type, path } => ExtensionValueView::Blob {
                content_type: content_type@,
                path: path@,
            },
        }
    }
}

/// One extension of an asset file: the byte of its kind and its value.
pub struct ExtensionField {
    pub kind: u8,
    pub value: ExtensionValueData,
}

/// An extension of an asset file as plain values.
pub struct ExtensionFieldView {
    pub kind: u8,
    pub value: ExtensionValueView,
}

impl View for ExtensionField {
    type V = ExtensionFieldView;

    open spec fn view(&self) -> ExtensionFieldView {
        ExtensionFieldView { kind: self.kind, value: self.value@ }
    }
}

/// What an asset file holds: the asset's name, the byte of its standard,
/// whether it is mutable, its owner, where the asset's key pair is kept if
/// the file names it, and its extensions in order.
pub struct AssetFileFields {
    pub name: String,
    pub standard: u8,
    pub mutable: bool,
    pub owner: Pubkey,
    pub asset_keypair_path: Option<String>,
    pub extensions: Vec<ExtensionField>,
}

/// An asset file as plain values.
pub struct AssetFileView {
    pub name: Seq<char>,
    pub standard: u8,
    pub mutable: bool,
    pub owner: Pubkey,
    pub asset_keypair_path: Option<Seq<char>>,
    pub extensions: Seq<ExtensionFieldView>,
}

impl View for AssetFileFields {
    type V = AssetFileView;

    open spec fn view(&self) -> AssetFileView {
        AssetFileView {
            name: self.name@,
            standard: self.standard,
            mutable: self.mutable,
            owner: self.owner,
            asset_keypair_path: match self.asset_keypair_path {
                Some(p) => Some(p@),
                None => None,
            },
            extensions: self.extensions@.map_values(|e: ExtensionField| e@),
        }
    }
}

/// The asset file that JSON text describes, with each extension value that
/// is not a blob already encoded, or `None` where the text is no asset file.
pub uninterp spec fn asset_file_of(json: Seq<u8>) -> Option<AssetFileView>;

/// `serde_json::from_slice` into `nifty_asset::AssetFile`, with each
/// extension value other than a blob encoded by `ExtensionValue::into_data`
/// and each blob kept as its content type and path (encoding a blob reads
/// its file). What the parse gives is named, not stated; the contract adds
/// only that the standard and the extension kinds are positions in the
/// program's lists of four standards and twelve kinds.
#[verifier::external_body]
fn parse_asset_file(json: &[u8]) -> (r: Option<AssetFileFields>)
    ensures
        r matches Some(f) ==> asset_file_of(json@) == Some(f@),
        r is None ==> asset_file_of(json@) is None,
        r matches Some(f) ==> f.standard < 4,
        r matches Some(f) ==> forall|i: int| 0 <= i < f.extensions@.len() ==> #[trigger] f.extensions@[i].kind < 12,
{
    serde_json::from_slice::<AssetFile>(json).ok().map(|f| AssetFileFields {
        name: f.name,
        standard: f.standard as u8,
        mutable: f.mutable,
        owner: f.owner.to_bytes(),
        asset_keypair_path: f.asset_keypair_path.map(|p| p.to_string_lossy().into_owned()),
        extensions: f.extensions.into_iter().map(|e| ExtensionField {
            kind: e.extension_type as u8,
            value: match e.value {
                ExtensionValue::JsonBlob(b) => ExtensionValueData::Blob { content_type: b.content_type, path: b.path },
                v => ExtensionValueData::Encoded(v.into_data()),
            },
        }).collect(),
    })
}

/// Reads an asset file from its JSON text: `None` exactly where the text
/// is no asset file.
pub fn read_asset_file(json: &[u8]) -> (r: Option<AssetFileFields>)
    ensures
        r matches Some(f) ==> asset_file_of(json@) == Some(f@),
        r is None <==> asset_file_of(json@) is None,
{
    parse_asset_file(json)
}

/// How many of the extensions are blobs.
pub open spec fn blob_count(exts: Seq<ExtensionFieldView>) -> nat
    decreases exts.len(),
{
    if exts.len() == 0 {
        0
    } else {
        blob_count(exts.drop_last()) + if exts.last().value is Blob { 1nat } else { 0nat }
    }
}

/// The data of a blob extension: the length of its content type's UTF-8
/// bytes, kept to one byte, then those bytes, then the contents of its file.
pub open spec fn blob_bytes(content_type: Seq<char>, contents: Seq<u8>) -> Seq<u8> {
    let ct = encode_utf8(content_type);
    seq![(ct.len() % 256) as u8] + ct + contents
}

/// The data of the extension at `i`, where `blobs` holds the contents of
/// the blob files in the order the blobs come in the file.
pub open spec fn field_data(exts: Seq<ExtensionFieldView>, blobs: Seq<Seq<u8>>, i: int) -> Seq<u8> {
    match exts[i].value {
        ExtensionValueView::Encoded(d) => d,
        ExtensionValueView::Blob { content_type, .. } => blob_bytes(
            content_type,
            blobs[blob_count(exts.take(i)) as int],
        ),
    }
}

/// The extensions of an asset file as kind bytes and encoded data.
pub open spec fn file_extensions(exts: Seq<ExtensionFieldView>, blobs: Seq<Seq<u8>>) -> Seq<(u8, Seq<u8>)> {
    Seq::new(exts.len(), |i: int| (exts[i].kind, field_data(exts, blobs, i)))
}

/// The instructions that mint `asset` as the file describes it, under the
/// non-fungible standard and paid by `authority`.
pub open spec fn file_plan(f: AssetFileView, blobs: Seq<Seq<u8>>, asset: Pubkey, authority: Pubkey) -> Seq<InstructionView> {
    minted(
        asset@,
        f.owner@,
        Some(authority@),
        f.name,
        standard_byte(Standard::NonFungible),
        f.mutable,
        file_extensions(f.extensions, blobs),
    )
}

/// The contents of the blob files in order, as sequences.
pub open spec fn blob_views(blobs: Seq<Vec<u8>>) -> Seq<Seq<u8>> {
    blobs.map_values(|b: Vec<u8>| b@)
}

/// Why an asset file could not be turned into transactions.
#[derive(Clone, Copy, Debug, PartialEq, Eq, Structural)]
pub enum MintFileError {
    /// The text is no asset file.
    NotAnAssetFile,
    /// The number of blob contents given is not the number of blobs.
    BlobCountMismatch,
    /// The name does not fit a four-byte length.
    NameTooLong,
    /// Some transaction of the mint cannot be built.
    Unbuildable,
}

/// The name's UTF-8 bytes fit a four-byte length.
pub open spec fn name_fits(name: Seq<char>) -> bool {
    encode_utf8(name).len() <= u32::MAX
}

/// The outcome of minting from an asset file whose JSON text is `json`.
pub open spec fn file_outcome(
    json: Seq<u8>,
    blobs: Seq<Seq<u8>>,
    asset: Pubkey,
    authority: Pubkey,
) -> Result<Seq<Seq<InstructionView>>, MintFileError> {
    match asset_file_of(json) {
        None => Err(MintFileError::NotAnAssetFile),
        Some(f) => if blob_count(f.extensions) != blobs.len() {
            Err(MintFileError::BlobCountMismatch)
        } else if !name_fits(f.name) {
            Err(MintFileError::NameTooLong)
        } else if !packing_compiles(authority, file_plan(f, blobs, asset, authority), payload_limit(2)) {
            Err(MintFileError::Unbuildable)
        } else {
            Ok(packed(authority, file_plan(f, blobs, asset, authority), payload_limit(2)))
        },
    }
}

/// The data of a blob extension with the given content type and contents.
fn blob_data(content_type: &String, contents: &Vec<u8>) -> (r: Vec<u8>)
    ensures
        r@ == blob_bytes(content_type@, contents@),
{
    let ct = content_type.as_str().as_bytes();
    let mut out: Vec<u8> = Vec::new();
    out.push((ct.len() % 256) as u8);
    let mut tail = vstd::slice::slice_to_vec(ct);
    out.append(&mut tail);
    let mut rest = vstd::slice::slice_to_vec(contents.as_slice());
    out.append(&mut rest);
    out
}

/// The extension kind whose byte is `kind`.
fn extension_kind(kind: u8) -> (r: ExtensionType)
    requires
        kind < 12,
    ensures
        extension_byte(r) == kind,
        r as u8 == kind,
{
    match kind {
        0 => ExtensionType::Unset,
        1 => ExtensionType::Attributes,
        2 => ExtensionType::Blob,
        3 => ExtensionType::Creators,
        4 => ExtensionType::Links,
        5 => ExtensionType::Metadata,
        6 => ExtensionType::Grouping,
        7 => ExtensionType::Royalties,
        8 => ExtensionType::Manager,
        9 => ExtensionType::Proxy,
        10 => ExtensionType::Properties,
        _ => ExtensionType::Bucket,
    }
}

proof fn lemma_blob_count_step(exts: Seq<ExtensionFieldView>, i: int)
    requires
        0 <= i < exts.len(),
    ensures
        blob_count(exts.take(i + 1)) == blob_count(exts.take(i)) + if exts[i].value is Blob { 1nat } else { 0nat },
{
    assert(exts.take(i + 1).drop_last() =~= exts.take(i));
}

proof fn lemma_blob_count_bounded(exts: Seq<ExtensionFieldView>, i: int)
    requires
        0 <= i <= exts.len(),
    ensures
        blob_count(exts.take(i)) <= blob_count(exts),
    decreases exts.len() - i,
{
    if i < exts.len() {
        lemma_blob_count_step(exts, i);
        lemma_blob_count_bounded(exts, i + 1);
    } else {
        assert(exts.take(i) =~= exts);
    }
}

/// Counts the blob extensions.
fn count_blobs(exts: &Vec<ExtensionField>) -> (r: usize)
    ensures
        r == blob_count(exts@.map_values(|e: ExtensionField| e@)),
{
    let ghost s = exts@.map_values(|e: ExtensionField| e@);
    let mut n: usize = 0;
    let mut i: usize = 0;
    while i < exts.len()
        invariant
            i <= exts.len(),
            s == exts@.map_values(|e: ExtensionField| e@),
            n == blob_count(s.take(i as int)),
            n <= i,
        decreases exts.len() - i,
    {
        proof {
            lemma_blob_count_step(s, i as int);
        }
        if let ExtensionValueData::Blob { .. } = &exts[i].value {
            n = n + 1;
        }
        i = i + 1;
    }
    assert(s.take(i as int) =~= s);
    n
}

/// Encodes the extensions of an asset file, taking the contents of the
/// blob files from `blobs` in order.
fn encode_extensions(exts: &Vec<ExtensionField>, blobs: &Vec<Vec<u8>>) -> (r: Vec<ExtensionData>)
    requires
        forall|i: int| 0 <= i < exts@.len() ==> #[trigger] exts@[i].kind < 12,
        blob_count(exts@.map_values(|e: ExtensionField| e@)) == blobs@.len(),
    ensures
        extension_views(r@) == file_extensions(
            exts@.map_values(|e: ExtensionField| e@),
            blob_views(blobs@),
        ),
{
    let ghost s = exts@.map_values(|e: ExtensionField| e@);
    let ghost bs = blob_views(blobs@);
    let mut out: Vec<ExtensionData> = Vec::new();
    let nb = blobs.len();
    let mut j: usize = 0;
    let mut i: usize = 0;
    while i < exts.len()
        invariant
            i <= exts.len(),
            nb == blobs@.len(),
            s == exts@.map_values(|e: ExtensionField| e@),
            bs == blob_views(blobs@),
            forall|k: int| 0 <= k < exts@.len() ==> #[trigger] exts@[k].kind < 12,
            blob_count(s) == blobs@.len(),
            j == blob_count(s.take(i as int)),
            extension_views(out@) == file_extensions(s, bs).take(i as int),
        decreases exts.len() - i,
    {
        proof {
            lemma_blob_count_step(s, i as int);
            lemma_blob_count_bounded(s, i as int + 1);
        }
        let e = &exts[i];
        let data = match &e.value {
            ExtensionValueData::Encoded(d) => vstd::slice::slice_to_vec(d.as_slice()),
            ExtensionValueData::Blob { content_type, .. } => blob_data(content_type, &blobs[j]),
        };
        let is_blob = match &e.value {
            ExtensionValueData::Blob { .. } => true,
            _ => false,
        };
        let ghost before = out@;
        out.push(ExtensionData { extension_type: extension_kind(e.kind), data });
        proof {
            assert(s[i as int] == e@);
            assert(is_blob == (s[i as int].value is Blob));
            assert(extension_views(out@) =~= extension_views(before).push(
                (e.kind, field_data(s, bs, i as int)),
            ));
            assert(file_extensions(s, bs).take(i as int + 1) =~= file_extensions(s, bs).take(
                i as int,
            ).push((e.kind, field_data(s, bs, i as int))));
        }
        if is_blob {
            j = j + 1;
        }
        i = i + 1;
    }
    assert(file_extensions(s, bs).take(i as int) =~= file_extensions(s, bs));
    out
}

/// The transactions that mint `asset` from the asset file whose JSON text
/// is `json`, with `blobs` holding the contents of its blob files in the
/// order the blobs come in the file: the instructions of the mint packed in
/// order into batches for transactions signed by the authority and
/// the asset; an error where the text is no asset file, where the number
/// of blob contents is not the number of blobs, where the name is too long
/// to encode, or where some transaction of the mint cannot be built.
pub fn mint_transactions_from_file(json: &[u8], blobs: &Vec<Vec<u8>>, asset: &Pubkey, authority: &Pubkey) -> (r: Result<Vec<Vec<Instruction>>, MintFileError>)
    ensures
        match file_outcome(json@, blob_views(blobs@), *asset, *authority) {
            Ok(b) => r matches Ok(v) && batch_views(v@) == b,
            Err(e) => r == Err::<Vec<Vec<Instruction>>, MintFileError>(e),
        },
        r matches Ok(b) ==> asset_file_of(json@) matches Some(f) && batch_views(b@).flatten() == minted(
            asset@,
            f.owner@,
            Some(authority@),
            f.name,
            0,
            f.mutable,
            file_extensions(f.extensions, blob_views(blobs@)),
        ),
{
    let f = match parse_asset_file(json) {
        Some(f) => f,
        None => return Err(MintFileError::NotAnAssetFile),
    };
    let ghost fv = f@;
    let ghost bs = blob_views(blobs@);
    assert(fv.extensions == f.extensions@.map_values(|e: ExtensionField| e@));
    if count_blobs(&f.extensions) != blobs.len() {
        return Err(MintFileError::BlobCountMismatch);
    }
    let name_len = f.name.as_str().as_bytes().len();
    if name_len as u64 > 0xffff_ffffu64 {
        return Err(MintFileError::NameTooLong);
    }
    let extensions = encode_extensions(&f.extensions, blobs);
    let data = AssetData { name: f.name, mutable: f.mutable, owner: f.owner, extensions };
    assert(mint_plan(data, *asset, *authority) == file_plan(fv, bs, *asset, *authority));
    proof {
        law_file_mint_follows_the_file(fv, bs, *asset, *authority);
    }
    match mint_transactions(data, asset, authority) {
        Some(b) => Ok(b),
        None => Err(MintFileError::Unbuildable),
    }
}

/// The paths of the blob files, in the order the blobs come.
pub open spec fn blob_path_list(exts: Seq<ExtensionFieldView>) -> Seq<Seq<char>>
    decreases exts.len(),
{
    if exts.len() == 0 {
        Seq::empty()
    } else {
        blob_path_list(exts.drop_last()) + match exts.last().value {
            ExtensionValueView::Blob { path, .. } => seq![path],
            ExtensionValueView::Encoded(_) => Seq::empty(),
        }
    }
}

proof fn lemma_blob_paths_count(exts: Seq<ExtensionFieldView>)
    ensures
        blob_path_list(exts).len() == blob_count(exts),
    decreases exts.len(),
{
    if exts.len() > 0 {
        lemma_blob_paths_count(exts.drop_last());
    }
}

/// The paths of the blob files that an asset file names, in the order the
/// blobs come: the files whose contents `mint_transactions_from_file` takes.
pub fn blob_paths(file: &AssetFileFields) -> (r: Vec<String>)
    ensures
        r@.map_values(|p: String| p@) == blob_path_list(file@.extensions),
        r@.len() == blob_count(file@.extensions),
{
    let ghost s = file.extensions@.map_values(|e: ExtensionField| e@);
    assert(s == file@.extensions);
    let mut out: Vec<String> = Vec::new();
    let mut i: usize = 0;
    while i < file.extensions.len()
        invariant
            i <= file.extensions.len(),
            s == file.extensions@.map_values(|e: ExtensionField| e@),
            out@.map_values(|p: String| p@) == blob_path_list(s.take(i as int)),
        decreases file.extensions.len() - i,
    {
        let ghost before = out@;
        assert(s.take(i as int + 1).drop_last() =~= s.take(i as int));
        assert(s[i as int] == file.extensions@[i as int]@);
        if let ExtensionValueData::Blob { path, .. } = &file.extensions[i].value {
            out.push(path.clone());
            assert(out@.map_values(|p: String| p@) =~= before.map_values(|p: String| p@).push(path@));
        } else {
            assert(out@ == before);
        }
        i = i + 1;
    }
    assert(s.take(i as int) =~= s);
    proof {
        lemma_blob_paths_count(s);
    }
    out
}

/// Whether a file name has the extension `json`: the name ends in `.json`
/// and that dot is not its first byte.
pub open spec fn is_json_name(name: Seq<u8>) -> bool {
    let n = name.len() as int;
    &&& n >= 6
    &&& name[n - 5] == 46
    &&& name[n - 4] == 106
    &&& name[n - 3] == 115
    &&& name[n - 2] == 111
    &&& name[n - 1] == 110
}

/// Whether the file with this name is an asset file to mint: its extension
/// is `json`.
pub fn is_json_file_name(name: &[u8]) -> (r: bool)
    ensures
        r == is_json_name(name@),
{
    let n = name.len();
    if n < 6 {
        return false;
    }
    // The bytes of `.json`.
    name[n - 5] == 46 && name[n - 4] == 106 && name[n - 3] == 115 && name[n - 2] == 111
        && name[n - 1] == 110
}

/// Minting from an asset file mints what the file says, whatever the
/// authority is: the asset goes to the file's owner, the authority pays,
/// it is non-fungible (standard byte 0), named and mutable as the file
/// says, and each extension keeps the file's kind byte; the transactions
/// hold these instructions in order and nothing else.
pub proof fn law_file_mint_follows_the_file(
    f: AssetFileView,
    blobs: Seq<Seq<u8>>,
    asset: Pubkey,
    authority: Pubkey,
)
    ensures
        file_plan(f, blobs, asset, authority) == minted(
            asset@,
            f.owner@,
            Some(authority@),
            f.name,
            0,
            f.mutable,
            file_extensions(f.extensions, blobs),
        ),
        file_extensions(f.extensions, blobs).len() == f.extensions.len(),
        forall|i: int| 0 <= i < f.extensions.len() ==> (#[trigger] file_extensions(f.extensions, blobs)[i]).0
            == f.extensions[i].kind,
        forall|i: int| 0 <= i < f.extensions.len() ==> ((#[trigger] f.extensions[i].value) matches ExtensionValueView::Encoded(d)
            ==> file_extensions(f.extensions, blobs)[i].1 == d),
        forall|i: int| 0 <= i < f.extensions.len() ==> ((#[trigger] f.extensions[i].value) matches ExtensionValueView::Blob { content_type, .. }
            ==> file_extensions(f.extensions, blobs)[i].1 == seq![(encode_utf8(content_type).len() % 256) as u8]
                + encode_utf8(content_type) + blobs[blob_count(f.extensions.take(i)) as int]),
        packed(authority, file_plan(f, blobs, asset, authority), payload_limit(2)).flatten() == minted(
            asset@,
            f.owner@,
            Some(authority@),
            f.name,
            0,
            f.mutable,
            file_extensions(f.extensions, blobs),
        ),
{
    law_packing_keeps_every_instruction(authority, file_plan(f, blobs, asset, authority), payload_limit(2));
}

/// The bytes of `.json`.
pub open spec fn json_suffix() -> Seq<u8> {
    seq![46u8, 106u8, 115u8, 111u8, 110u8]
}

/// A file is an asset file exactly when its name is a non-empty stem
/// followed by `.json`.
pub proof fn law_json_file_names(name: Seq<u8>, stem: Seq<u8>)
    ensures
        stem.len() >= 1 ==> is_json_name(stem + json_suffix()),
        is_json_name(name) ==> name.len() >= 6 && name == name.subrange(0, name.len() - 5) + json_suffix(),
        !(name.len() >= 6 && name.subrange(name.len() - 5, name.len() as int) == json_suffix())
            ==> !is_json_name(name),
{
    let full = stem + json_suffix();
    if stem.len() >= 1 {
        assert(full[full.len() - 5] == 46u8);
        assert(full[full.len() - 4] == 106u8);
        assert(full[full.len() - 3] == 115u8);
        assert(full[full.len() - 2] == 111u8);
        assert(full[full.len() - 1] == 110u8);
    }
    if is_json_name(name) {
        assert(name =~= name.subrange(0, name.len() - 5) + json_suffix());
        assert(name.subrange(name.len() - 5, name.len() as int) =~= json_suffix());
    }
}

/// The number of blobs is the number of extensions whose value is a blob.
pub proof fn law_blob_count_counts_blobs(exts: Seq<ExtensionFieldView>)
    ensures
        blob_count(exts) == exts.filter(|e: ExtensionFieldView| e.value is Blob).len(),
    decreases exts.len(),
{
    reveal(Seq::filter);
    if exts.len() > 0 {
        law_blob_count_counts_blobs(exts.drop_last());
    }
}

} // verus!
