use vstd::prelude::*;
use crate::model::{AccountMeta, Instruction, InstructionView, meta, same_key, views};
use solana_sdk::pubkey::Pubkey as SdkPubkey;

verus! {

/// Whether no key occurs twice in a key table.
pub open spec fn distinct_keys(t: Seq<AccountMeta>) -> bool {
    forall|i: int, j: int|
        0 <= i < j < t.len() ==> (#[trigger] t[i]).pubkey@ != (#[trigger] t[j]).pubkey@
}

/// Whether a key table has an entry for the key.
pub open spec fn has_key(t: Seq<AccountMeta>, k: Seq<u8>) -> bool {
    exists|i: int| 0 <= i < t.len() && (#[trigger] t[i]).pubkey@ == k
}

/// The table after one more use of a key: the roles of an entry already
/// there are widened by the new use, a new key is added at the end.
pub open spec fn merge(t: Seq<AccountMeta>, m: AccountMeta) -> Seq<AccountMeta> {
    if has_key(t, m.pubkey@) {
        let i = choose|i: int| 0 <= i < t.len() && (#[trigger] t[i]).pubkey@ == m.pubkey@;
        t.update(
            i,
            meta(t[i].pubkey, t[i].is_signer || m.is_signer, t[i].is_writable || m.is_writable),
        )
    } else {
        t.push(m)
    }
}

/// The table after a sequence of key uses, in order.
pub open spec fn merge_all(t: Seq<AccountMeta>, ms: Seq<AccountMeta>) -> Seq<AccountMeta>
    decreases ms.len(),
{
    if ms.len() == 0 {
        t
    } else {
        merge(merge_all(t, ms.drop_last()), ms.last())
    }
}

/// The table after the keys of one instruction: its program, which neither
/// signs nor is written, then its accounts.
pub open spec fn merge_instruction(t: Seq<AccountMeta>, ix: InstructionView) -> Seq<AccountMeta> {
    merge_all(merge(t, meta(ix.program_id, false, false)), ix.accounts)
}

/// The accounts of a legacy transaction message built from the instructions
/// with the given fee payer: every key that occurs once, a signer when the
/// payer or some use signs with it, writable when the payer or some use
/// writes it.
pub open spec fn key_table(payer: [u8; 32], ixs: Seq<InstructionView>) -> Seq<AccountMeta>
    decreases ixs.len(),
{
    if ixs.len() == 0 {
        seq![meta(payer, true, true)]
    } else {
        merge_instruction(key_table(payer, ixs.drop_last()), ixs.last())
    }
}

/// The number of entries of a table that sign.
pub open spec fn signer_count(t: Seq<AccountMeta>) -> nat
    decreases t.len(),
{
    if t.len() == 0 {
        0
    } else {
        signer_count(t.drop_last()) + if t.last().is_signer { 1nat } else { 0nat }
    }
}

/// The number of entries of a table that neither sign nor are written.
pub open spec fn readonly_unsigned_count(t: Seq<AccountMeta>) -> nat
    decreases t.len(),
{
    if t.len() == 0 {
        0
    } else {
        readonly_unsigned_count(t.drop_last()) + if !t.last().is_signer
            && !t.last().is_writable { 1nat } else { 0nat }
    }
}

/// The number of bytes of the compact length prefix of a sequence of `n`
/// elements: seven bits per byte, at most three bytes.
pub open spec fn short_len(n: nat) -> nat {
    if n < 0x80 {
        1
    } else if n < 0x4000 {
        2
    } else {
        3
    }
}

/// The bytes that the compiled instructions take: per instruction, the index
/// of its program, its account indices and its data, each list behind its
/// length prefix.
pub open spec fn instruction_bytes(ixs: Seq<InstructionView>) -> nat
    decreases ixs.len(),
{
    if ixs.len() == 0 {
        0
    } else {
        let ix = ixs.last();
        instruction_bytes(ixs.drop_last()) + 1 + short_len(ix.accounts.len()) + ix.accounts.len()
            + short_len(ix.data.len()) + ix.data.len()
    }
}

/// The length in bytes of the serialized unsigned legacy transaction with
/// the given payer: the placeholder signatures, the three header bytes, the
/// account keys, the blockhash, and the compiled instructions.
pub open spec fn wire_len(payer: [u8; 32], ixs: Seq<InstructionView>) -> nat {
    let t = key_table(payer, ixs);
    let nsig = signer_count(t);
    short_len(nsig) + 64 * nsig + 3 + short_len(t.len()) + 32 * t.len() + 32 + short_len(
        ixs.len(),
    ) + instruction_bytes(ixs)
}

/// Whether a transaction can be built and serialized from the instructions:
/// the signer and read-only counts fit in a byte, and every list fits its
/// sixteen-bit length prefix.
pub open spec fn compiles(payer: [u8; 32], ixs: Seq<InstructionView>) -> bool {
    let t = key_table(payer, ixs);
    &&& signer_count(t) <= 255
    &&& readonly_unsigned_count(t) <= 255
    &&& t.len() <= 0xffff
    &&& ixs.len() <= 0xffff
    &&& forall|i: int|
        0 <= i < ixs.len() ==> (#[trigger] ixs[i]).accounts.len() <= 0xffff
            && ixs[i].data.len() <= 0xffff
}

/// Whether an instruction uses the key, as its program or an account.
pub open spec fn uses_key(ix: InstructionView, k: Seq<u8>) -> bool {
    ix.program_id@ == k || exists|j: int| 0 <= j < ix.accounts.len() && (#[trigger] ix.accounts[j]).pubkey@ == k
}

/// Whether an instruction signs with the key.
pub open spec fn signs_with(ix: InstructionView, k: Seq<u8>) -> bool {
    exists|j: int|
        0 <= j < ix.accounts.len() && (#[trigger] ix.accounts[j]).pubkey@ == k && ix.accounts[j].is_signer
}

/// Whether the key is the payer's or one that some instruction uses.
pub open spec fn mentions(payer: [u8; 32], ixs: Seq<InstructionView>, k: Seq<u8>) -> bool {
    k == payer@ || exists|i: int| 0 <= i < ixs.len() && uses_key(#[trigger] ixs[i], k)
}

/// Whether the key is the payer's or one that some instruction signs with.
pub open spec fn signs(payer: [u8; 32], ixs: Seq<InstructionView>, k: Seq<u8>) -> bool {
    k == payer@ || exists|i: int| 0 <= i < ixs.len() && signs_with(#[trigger] ixs[i], k)
}

/// Whether a table has a signing entry for the key.
pub open spec fn signer_key(t: Seq<AccountMeta>, k: Seq<u8>) -> bool {
    exists|i: int| 0 <= i < t.len() && (#[trigger] t[i]).pubkey@ == k && t[i].is_signer
}

/// The keys of a table.
pub open spec fn key_set(t: Seq<AccountMeta>) -> Set<Seq<u8>> {
    Set::new(|k: Seq<u8>| has_key(t, k))
}

/// The signing keys of a table.
pub open spec fn signer_set(t: Seq<AccountMeta>) -> Set<Seq<u8>> {
    Set::new(|k: Seq<u8>| signer_key(t, k))
}

proof fn lemma_merge(t: Seq<AccountMeta>, m: AccountMeta)
    requires
        distinct_keys(t),
    ensures
        distinct_keys(merge(t, m)),
        forall|k: Seq<u8>| #[trigger] has_key(merge(t, m), k) <==> (has_key(t, k) || k == m.pubkey@),
        forall|k: Seq<u8>|
            #[trigger] signer_key(merge(t, m), k) <==> (signer_key(t, k) || (k == m.pubkey@ && m.is_signer)),
{
    let r = merge(t, m);
    if has_key(t, m.pubkey@) {
        let c = choose|i: int| 0 <= i < t.len() && (#[trigger] t[i]).pubkey@ == m.pubkey@;
        assert(r == t.update(c, meta(t[c].pubkey, t[c].is_signer || m.is_signer, t[c].is_writable || m.is_writable)));
        assert forall|a: int, b: int| 0 <= a < b < r.len() implies (#[trigger] r[a]).pubkey@ != (#[trigger] r[b]).pubkey@ by {
            assert(t[a].pubkey@ != t[b].pubkey@);
        }
        assert forall|k: Seq<u8>| #[trigger] has_key(r, k) <==> (has_key(t, k) || k == m.pubkey@) by {
            if has_key(r, k) {
                let i = choose|i: int| 0 <= i < r.len() && (#[trigger] r[i]).pubkey@ == k;
                assert(t[i].pubkey@ == k);
            }
            if has_key(t, k) {
                let i = choose|i: int| 0 <= i < t.len() && (#[trigger] t[i]).pubkey@ == k;
                assert(r[i].pubkey@ == k);
            }
            if k == m.pubkey@ {
                assert(r[c].pubkey@ == k);
            }
        }
        assert forall|k: Seq<u8>|
            #[trigger] signer_key(r, k) <==> (signer_key(t, k) || (k == m.pubkey@ && m.is_signer)) by {
            if signer_key(r, k) {
                let i = choose|i: int| 0 <= i < r.len() && (#[trigger] r[i]).pubkey@ == k && r[i].is_signer;
                if i != c {
                    assert(t[i] == r[i]);
                } else if t[c].is_signer {
                    assert(t[c].pubkey@ == k);
                }
            }
            if signer_key(t, k) {
                let i = choose|i: int| 0 <= i < t.len() && (#[trigger] t[i]).pubkey@ == k && t[i].is_signer;
                assert(r[i].pubkey@ == k && r[i].is_signer);
            }
            if k == m.pubkey@ && m.is_signer {
                assert(r[c].pubkey@ == k && r[c].is_signer);
            }
        }
    } else {
        assert(r == t.push(m));
        assert forall|a: int, b: int| 0 <= a < b < r.len() implies (#[trigger] r[a]).pubkey@ != (#[trigger] r[b]).pubkey@ by {
            if b < t.len() {
                assert(t[a].pubkey@ != t[b].pubkey@);
            } else {
                assert(r[a] == t[a]);
            }
        }
        assert forall|k: Seq<u8>| #[trigger] has_key(r, k) <==> (has_key(t, k) || k == m.pubkey@) by {
            if has_key(r, k) {
                let i = choose|i: int| 0 <= i < r.len() && (#[trigger] r[i]).pubkey@ == k;
                if i < t.len() {
                    assert(t[i] == r[i]);
                }
            }
            if has_key(t, k) {
                let i = choose|i: int| 0 <= i < t.len() && (#[trigger] t[i]).pubkey@ == k;
                assert(r[i] == t[i]);
            }
            if k == m.pubkey@ {
                assert(r[t.len() as int] == m);
            }
        }
        assert forall|k: Seq<u8>|
            #[trigger] signer_key(r, k) <==> (signer_key(t, k) || (k == m.pubkey@ && m.is_signer)) by {
            if signer_key(r, k) {
                let i = choose|i: int| 0 <= i < r.len() && (#[trigger] r[i]).pubkey@ == k && r[i].is_signer;
                if i < t.len() {
                    assert(t[i] == r[i]);
                }
            }
            if signer_key(t, k) {
                let i = choose|i: int| 0 <= i < t.len() && (#[trigger] t[i]).pubkey@ == k && t[i].is_signer;
                assert(r[i] == t[i]);
            }
            if k == m.pubkey@ && m.is_signer {
                assert(r[t.len() as int] == m);
            }
        }
    }
}

proof fn lemma_merge_all(t: Seq<AccountMeta>, ms: Seq<AccountMeta>)
    requires
        distinct_keys(t),
    ensures
        distinct_keys(merge_all(t, ms)),
        forall|k: Seq<u8>|
            #[trigger] has_key(merge_all(t, ms), k) <==> (has_key(t, k) || exists|j: int|
                0 <= j < ms.len() && (#[trigger] ms[j]).pubkey@ == k),
        forall|k: Seq<u8>|
            #[trigger] signer_key(merge_all(t, ms), k) <==> (signer_key(t, k) || exists|j: int|
                0 <= j < ms.len() && (#[trigger] ms[j]).pubkey@ == k && ms[j].is_signer),
    decreases ms.len(),
{
    if ms.len() > 0 {
        let d = ms.drop_last();
        lemma_merge_all(t, d);
        lemma_merge(merge_all(t, d), ms.last());
        assert forall|k: Seq<u8>|
            #[trigger] has_key(merge_all(t, ms), k) <==> (has_key(t, k) || exists|j: int|
                0 <= j < ms.len() && (#[trigger] ms[j]).pubkey@ == k) by {
            if exists|j: int| 0 <= j < ms.len() && (#[trigger] ms[j]).pubkey@ == k {
                let j = choose|j: int| 0 <= j < ms.len() && (#[trigger] ms[j]).pubkey@ == k;
                if j < d.len() {
                    assert(d[j] == ms[j]);
                }
            }
            if exists|j: int| 0 <= j < d.len() && (#[trigger] d[j]).pubkey@ == k {
                let j = choose|j: int| 0 <= j < d.len() && (#[trigger] d[j]).pubkey@ == k;
                assert(ms[j] == d[j]);
            }
        }
        assert forall|k: Seq<u8>|
            #[trigger] signer_key(merge_all(t, ms), k) <==> (signer_key(t, k) || exists|j: int|
                0 <= j < ms.len() && (#[trigger] ms[j]).pubkey@ == k && ms[j].is_signer) by {
            if exists|j: int| 0 <= j < ms.len() && (#[trigger] ms[j]).pubkey@ == k && ms[j].is_signer {
                let j = choose|j: int| 0 <= j < ms.len() && (#[trigger] ms[j]).pubkey@ == k && ms[j].is_signer;
                if j < d.len() {
                    assert(d[j] == ms[j]);
                }
            }
            if exists|j: int| 0 <= j < d.len() && (#[trigger] d[j]).pubkey@ == k && d[j].is_signer {
                let j = choose|j: int| 0 <= j < d.len() && (#[trigger] d[j]).pubkey@ == k && d[j].is_signer;
                assert(ms[j] == d[j]);
            }
        }
    }
}

/// The key table holds each key that the payer or an instruction uses, once,
/// and marks as signing exactly those that the payer or some use signs with.
pub proof fn lemma_key_table(payer: [u8; 32], ixs: Seq<InstructionView>)
    ensures
        distinct_keys(key_table(payer, ixs)),
        forall|k: Seq<u8>| #[trigger] has_key(key_table(payer, ixs), k) <==> mentions(payer, ixs, k),
        forall|k: Seq<u8>| #[trigger] signer_key(key_table(payer, ixs), k) <==> signs(payer, ixs, k),
    decreases ixs.len(),
{
    let t = key_table(payer, ixs);
    if ixs.len() == 0 {
        assert forall|k: Seq<u8>| #[trigger] has_key(t, k) <==> mentions(payer, ixs, k) by {
            if k == payer@ {
                assert(t[0].pubkey@ == k);
            }
        }
        assert forall|k: Seq<u8>| #[trigger] signer_key(t, k) <==> signs(payer, ixs, k) by {
            if k == payer@ {
                assert(t[0].pubkey@ == k && t[0].is_signer);
            }
        }
    } else {
        let d = ixs.drop_last();
        let ix = ixs.last();
        let t0 = key_table(payer, d);
        let pm = meta(ix.program_id, false, false);
        lemma_key_table(payer, d);
        lemma_merge(t0, pm);
        lemma_merge_all(merge(t0, pm), ix.accounts);
        assert forall|k: Seq<u8>| #[trigger] has_key(t, k) <==> mentions(payer, ixs, k) by {
            if exists|i: int| 0 <= i < d.len() && uses_key(#[trigger] d[i], k) {
                let i = choose|i: int| 0 <= i < d.len() && uses_key(#[trigger] d[i], k);
                assert(ixs[i] == d[i]);
            }
            if exists|i: int| 0 <= i < ixs.len() && uses_key(#[trigger] ixs[i], k) {
                let i = choose|i: int| 0 <= i < ixs.len() && uses_key(#[trigger] ixs[i], k);
                if i < d.len() {
                    assert(d[i] == ixs[i]);
                } else {
                    assert(ixs[i] == ix);
                }
            }
        }
        assert forall|k: Seq<u8>| #[trigger] signer_key(t, k) <==> signs(payer, ixs, k) by {
            if exists|i: int| 0 <= i < d.len() && signs_with(#[trigger] d[i], k) {
                let i = choose|i: int| 0 <= i < d.len() && signs_with(#[trigger] d[i], k);
                assert(ixs[i] == d[i]);
            }
            if exists|i: int| 0 <= i < ixs.len() && signs_with(#[trigger] ixs[i], k) {
                let i = choose|i: int| 0 <= i < ixs.len() && signs_with(#[trigger] ixs[i], k);
                if i < d.len() {
                    assert(d[i] == ixs[i]);
                } else {
                    assert(ixs[i] == ix);
                }
            }
        }
    }
}

/// A table without repeated keys has as many entries as keys, and as many
/// signing entries as signing keys.
pub proof fn lemma_table_counts(t: Seq<AccountMeta>)
    requires
        distinct_keys(t),
    ensures
        key_set(t).finite(),
        key_set(t).len() == t.len(),
        signer_set(t).finite(),
        signer_set(t).len() == signer_count(t),
    decreases t.len(),
{
    if t.len() == 0 {
        assert(key_set(t) =~= Set::empty());
        assert(signer_set(t) =~= Set::empty());
    } else {
        let d = t.drop_last();
        let e = t.last();
        assert(distinct_keys(d)) by {
            assert forall|a: int, b: int| 0 <= a < b < d.len() implies (#[trigger] d[a]).pubkey@ != (#[trigger] d[b]).pubkey@ by {
                assert(t[a].pubkey@ != t[b].pubkey@);
            }
        }
        lemma_table_counts(d);
        assert(!key_set(d).contains(e.pubkey@)) by {
            if has_key(d, e.pubkey@) {
                let i = choose|i: int| 0 <= i < d.len() && (#[trigger] d[i]).pubkey@ == e.pubkey@;
                assert(t[i].pubkey@ != t[t.len() - 1].pubkey@);
            }
        }
        assert(key_set(t) =~= key_set(d).insert(e.pubkey@)) by {
            assert forall|k: Seq<u8>| key_set(t).contains(k) <==> key_set(d).insert(e.pubkey@).contains(k) by {
                if has_key(t, k) {
                    let i = choose|i: int| 0 <= i < t.len() && (#[trigger] t[i]).pubkey@ == k;
                    if i < d.len() {
                        assert(d[i] == t[i]);
                    }
                }
                if has_key(d, k) {
                    let i = choose|i: int| 0 <= i < d.len() && (#[trigger] d[i]).pubkey@ == k;
                    assert(t[i] == d[i]);
                }
                if k == e.pubkey@ {
                    assert(t[t.len() - 1] == e);
                }
            }
        }
        assert(!signer_set(d).contains(e.pubkey@));
        let grown = if e.is_signer { signer_set(d).insert(e.pubkey@) } else { signer_set(d) };
        assert(signer_set(t) =~= grown) by {
            assert forall|k: Seq<u8>| signer_set(t).contains(k) <==> grown.contains(k) by {
                if signer_key(t, k) {
                    let i = choose|i: int| 0 <= i < t.len() && (#[trigger] t[i]).pubkey@ == k && t[i].is_signer;
                    if i < d.len() {
                        assert(d[i] == t[i]);
                    }
                }
                if signer_key(d, k) {
                    let i = choose|i: int| 0 <= i < d.len() && (#[trigger] d[i]).pubkey@ == k && d[i].is_signer;
                    assert(t[i] == d[i]);
                }
                if k == e.pubkey@ && e.is_signer {
                    assert(t[t.len() - 1] == e);
                }
            }
        }
    }
}

/// The bytes of the compiled instructions of two lists add up.
pub proof fn lemma_instruction_bytes_concat(a: Seq<InstructionView>, b: Seq<InstructionView>)
    ensures
        instruction_bytes(a + b) == instruction_bytes(a) + instruction_bytes(b),
    decreases b.len(),
{
    if b.len() == 0 {
        assert(a + b =~= a);
    } else {
        lemma_instruction_bytes_concat(a, b.drop_last());
        assert((a + b).drop_last() =~= a + b.drop_last());
        assert((a + b).last() == b.last());
    }
}

/// Dropping instructions from either end of a list never makes its
/// transaction longer.
pub proof fn lemma_wire_len_monotone(payer: [u8; 32], ixs: Seq<InstructionView>, a: int, b: int)
    requires
        0 <= a <= b <= ixs.len(),
    ensures
        wire_len(payer, ixs.subrange(a, b)) <= wire_len(payer, ixs),
{
    let sub = ixs.subrange(a, b);
    let t = key_table(payer, sub);
    let u = key_table(payer, ixs);
    lemma_key_table(payer, sub);
    lemma_key_table(payer, ixs);
    lemma_table_counts(t);
    lemma_table_counts(u);
    assert(key_set(t).subset_of(key_set(u))) by {
        assert forall|k: Seq<u8>| key_set(t).contains(k) implies key_set(u).contains(k) by {
            if k != payer@ {
                let i = choose|i: int| 0 <= i < sub.len() && uses_key(#[trigger] sub[i], k);
                assert(sub[i] == ixs[i + a]);
            }
        }
    }
    assert(signer_set(t).subset_of(signer_set(u))) by {
        assert forall|k: Seq<u8>| signer_set(t).contains(k) implies signer_set(u).contains(k) by {
            if k != payer@ {
                let i = choose|i: int| 0 <= i < sub.len() && signs_with(#[trigger] sub[i], k);
                assert(sub[i] == ixs[i + a]);
            }
        }
    }
    vstd::set_lib::lemma_len_subset(key_set(t), key_set(u));
    vstd::set_lib::lemma_len_subset(signer_set(t), signer_set(u));
    assert(ixs =~= ixs.take(a) + sub + ixs.skip(b));
    lemma_instruction_bytes_concat(ixs.take(a) + sub, ixs.skip(b));
    lemma_instruction_bytes_concat(ixs.take(a), sub);
}

/// The length of the serialized transaction that `Transaction::new_with_payer`
/// builds from the instructions and the payer, as `bincode::serialize` writes
/// it. The claim rests on the two outside functions: the message holds each
/// distinct key once, the payer first and signing, a signer count of
/// placeholder signatures precedes it, and every list is written behind its
/// compact length prefix. The `requires` keeps out the inputs on which the
/// message cannot be compiled (an `expect` there) or a list outgrows its
/// prefix (an error that the `unwrap` turns into a panic).
#[verifier::external_body]
pub(crate) fn serialized_tx_len(ixs: &[Instruction], payer: &[u8; 32]) -> (n: usize)
    requires
        compiles(*payer, views(ixs@)),
    ensures
        n == wire_len(*payer, views(ixs@)),
{
    let ixs: Vec<solana_sdk::instruction::Instruction> = ixs.iter().map(|ix|
        solana_sdk::instruction::Instruction {
            program_id: SdkPubkey::new_from_array(ix.program_id),
            accounts: ix.accounts.iter().map(|m| solana_sdk::instruction::AccountMeta {
                pubkey: SdkPubkey::new_from_array(m.pubkey),
                is_signer: m.is_signer,
                is_writable: m.is_writable,
            }).collect(),
            data: ix.data.clone(),
        }).collect();
    let tx = solana_sdk::transaction::Transaction::new_with_payer(&ixs, Some(&SdkPubkey::new_from_array(*payer)));
    bincode::serialize(&tx).unwrap().len()
}

/// Records one use of a key in the table.
pub fn merge_key(t: &mut Vec<AccountMeta>, m: AccountMeta)
    requires
        distinct_keys(old(t)@),
    ensures
        final(t)@ == merge(old(t)@, m),
        distinct_keys(final(t)@),
{
    let ghost t0 = t@;
    proof {
        lemma_merge(t0, m);
    }
    let mut i: usize = 0;
    while i < t.len()
        invariant
            0 <= i <= t.len(),
            t@ == t0,
            t0 == old(t)@,
            distinct_keys(t0),
            distinct_keys(merge(t0, m)),
            forall|j: int| 0 <= j < i ==> (#[trigger] t@[j]).pubkey@ != m.pubkey@,
        decreases t.len() - i,
    {
        if same_key(&t[i].pubkey, &m.pubkey) {
            let e = t[i];
            t.set(i, AccountMeta {
                pubkey: e.pubkey,
                is_signer: e.is_signer || m.is_signer,
                is_writable: e.is_writable || m.is_writable,
            });
            proof {
                assert(t0[i as int].pubkey@ == m.pubkey@);
                let c = choose|c: int| 0 <= c < t0.len() && (#[trigger] t0[c]).pubkey@ == m.pubkey@;
                if c != i {
                    assert(t0[i as int].pubkey@ != t0[c].pubkey@);
                }
                assert(t@ =~= merge(t0, m));
            }
            return;
        }
        i += 1;
    }
    t.push(m);
    assert(t@ =~= merge(t0, m));
}

/// The key table of a legacy message with the given payer.
pub fn build_key_table(payer: &[u8; 32], ixs: &[Instruction]) -> (t: Vec<AccountMeta>)
    ensures
        t@ == key_table(*payer, views(ixs@)),
        distinct_keys(t@),
{
    let ghost vs = views(ixs@);
    let mut t: Vec<AccountMeta> = Vec::new();
    t.push(AccountMeta { pubkey: *payer, is_signer: true, is_writable: true });
    assert(t@ =~= key_table(*payer, vs.take(0)));
    let mut i: usize = 0;
    while i < ixs.len()
        invariant
            0 <= i <= ixs.len(),
            vs == views(ixs@),
            t@ == key_table(*payer, vs.take(i as int)),
            distinct_keys(t@),
        decreases ixs.len() - i,
    {
        let ix = &ixs[i];
        let ghost before = t@;
        merge_key(&mut t, AccountMeta { pubkey: ix.program_id, is_signer: false, is_writable: false });
        let ghost start = t@;
        let mut j: usize = 0;
        while j < ix.accounts.len()
            invariant
                0 <= j <= ix.accounts.len(),
                t@ == merge_all(start, ix.accounts@.take(j as int)),
                distinct_keys(t@),
            decreases ix.accounts.len() - j,
        {
            merge_key(&mut t, ix.accounts[j]);
            assert(ix.accounts@.take(j + 1).drop_last() =~= ix.accounts@.take(j as int));
            j += 1;
        }
        assert(ix.accounts@.take(j as int) =~= ix.accounts@);
        assert(vs.take(i + 1).drop_last() =~= vs.take(i as int));
        assert(vs.take(i + 1).last() == ix@);
        i += 1;
    }
    assert(vs.take(i as int) =~= vs);
    t
}

/// How many entries of the table sign, and how many neither sign nor are
/// written.
pub fn role_counts(t: &Vec<AccountMeta>) -> (r: (usize, usize))
    ensures
        r.0 == signer_count(t@),
        r.1 == readonly_unsigned_count(t@),
{
    let mut signers: usize = 0;
    let mut readonly: usize = 0;
    let mut i: usize = 0;
    while i < t.len()
        invariant
            0 <= i <= t.len(),
            signers == signer_count(t@.take(i as int)),
            readonly == readonly_unsigned_count(t@.take(i as int)),
            signers <= i,
            readonly <= i,
        decreases t.len() - i,
    {
        assert(t@.take(i + 1).drop_last() =~= t@.take(i as int));
        if t[i].is_signer {
            signers += 1;
        }
        if !t[i].is_signer && !t[i].is_writable {
            readonly += 1;
        }
        i += 1;
    }
    assert(t@.take(i as int) =~= t@);
    (signers, readonly)
}

/// Whether a transaction can be built and serialized from the instructions
/// with the given payer.
pub fn check_compiles(payer: &[u8; 32], ixs: &[Instruction]) -> (r: bool)
    ensures
        r == compiles(*payer, views(ixs@)),
{
    let ghost vs = views(ixs@);
    if ixs.len() > 0xffff {
        return false;
    }
    let mut i: usize = 0;
    while i < ixs.len()
        invariant
            0 <= i <= ixs.len(),
            vs == views(ixs@),
            forall|k: int|
                0 <= k < i ==> (#[trigger] vs[k]).accounts.len() <= 0xffff && vs[k].data.len()
                    <= 0xffff,
        decreases ixs.len() - i,
    {
        if ixs[i].accounts.len() > 0xffff || ixs[i].data.len() > 0xffff {
            assert(vs[i as int] == ixs@[i as int]@);
            return false;
        }
        i += 1;
    }
    let t = build_key_table(payer, ixs);
    let (signers, readonly) = role_counts(&t);
    signers <= 255 && readonly <= 255 && t.len() <= 0xffff
}

} // verus!
