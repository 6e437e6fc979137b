use vstd::prelude::*;

verus! {

/// A public key, held as its 32 bytes.
pub type Pubkey = [u8; 32];

/// One account that an instruction reads or writes, with the roles it plays.
#[derive(Clone, Copy)]
pub struct AccountMeta {
    pub pubkey: [u8; 32],
    pub is_signer: bool,
    pub is_writable: bool,
}

/// A program instruction as plain values: the program to run, the accounts
/// it touches in order, and its opaque input bytes.
pub struct Instruction {
    pub program_id: [u8; 32],
    pub accounts: Vec<AccountMeta>,
    pub data: Vec<u8>,
}

/// What an instruction is, mathematically.
pub struct InstructionView {
    pub program_id: [u8; 32],
    pub accounts: Seq<AccountMeta>,
    pub data: Seq<u8>,
}

impl View for Instruction {
    type V = InstructionView;

    open spec fn view(&self) -> InstructionView {
        InstructionView { program_id: self.program_id, accounts: self.accounts@, data: self.data@ }
    }
}

/// The views of a sequence of instructions.
pub open spec fn views(s: Seq<Instruction>) -> Seq<InstructionView> {
    s.map_values(|ix: Instruction| ix@)
}

/// The views of a sequence of batches of instructions.
pub open spec fn batch_views(s: Seq<Vec<Instruction>>) -> Seq<Seq<InstructionView>> {
    s.map_values(|b: Vec<Instruction>| views(b@))
}

/// A meta for a key, in the three roles it can take.
pub open spec fn meta(pubkey: [u8; 32], is_signer: bool, is_writable: bool) -> AccountMeta {
    AccountMeta { pubkey, is_signer, is_writable }
}

impl Instruction {
    /// A copy of the instruction, equal to it in every field.
    pub fn duplicate(&self) -> (r: Instruction)
        ensures
            r@ == self@,
    {
        Instruction {
            program_id: self.program_id,
            accounts: vstd::slice::slice_to_vec(self.accounts.as_slice()),
            data: vstd::slice::slice_to_vec(self.data.as_slice()),
        }
    }
}

/// Whether two keys are the same 32 bytes.
pub fn same_key(a: &[u8; 32], b: &[u8; 32]) -> (r: bool)
    ensures
        r == (a@ == b@),
{
    let mut i: usize = 0;
    while i < 32
        invariant
            0 <= i <= 32,
            forall|j: int| 0 <= j < i ==> a@[j] == b@[j],
        decreases 32 - i,
    {
        if a[i] != b[i] {
            assert(a@[i as int] != b@[i as int]);
            return false;
        }
        i += 1;
    }
    assert(a@ =~= b@);
    true
}

} // verus!
