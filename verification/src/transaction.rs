use vstd::prelude::*;
use crate::model::{Instruction, InstructionView, views, batch_views};
use crate::wire::{check_compiles, compiles, serialized_tx_len, wire_len};

verus! {

/// The room left for the transaction itself once `num_signers` signatures
/// of 64 bytes are taken from the 1232 bytes of a transaction.
pub open spec fn payload_limit(num_signers: u32) -> int {
    1232 - 64 * num_signers
}

/// The batches closed so far and the batch being filled, after the first
/// `i` instructions have been offered: an instruction joins the current
/// batch when that batch is empty or still serializes within `max` bytes
/// with it, and otherwise closes the batch and starts the next one.
pub open spec fn pack_state(payer: [u8; 32], ixs: Seq<InstructionView>, max: int, i: int) -> (
    Seq<Seq<InstructionView>>,
    Seq<InstructionView>,
)
    decreases i,
{
    if i <= 0 {
        (seq![], seq![])
    } else {
        let (done, cur) = pack_state(payer, ixs, max, i - 1);
        let grown = cur.push(ixs[i - 1]);
        if cur.len() > 0 && wire_len(payer, grown) > max {
            (done.push(cur), seq![ixs[i - 1]])
        } else {
            (done, grown)
        }
    }
}

/// The batches that packing yields: the closed ones, then the last one if
/// it holds any instruction.
pub open spec fn packed(payer: [u8; 32], ixs: Seq<InstructionView>, max: int) -> Seq<
    Seq<InstructionView>,
> {
    let (done, cur) = pack_state(payer, ixs, max, ixs.len() as int);
    if cur.len() > 0 {
        done.push(cur)
    } else {
        done
    }
}

/// Whether every transaction that packing measures can be built: the
/// current batch with the next instruction, at each step.
pub open spec fn packing_compiles(payer: [u8; 32], ixs: Seq<InstructionView>, max: int) -> bool {
    forall|i: int|
        0 <= i < ixs.len() ==> compiles(payer, (#[trigger] pack_state(payer, ixs, max, i)).1.push(
            ixs[i],
        ))
}

/// Whether each batch but the last could not take the first instruction of
/// the batch after it, which is never empty.
pub open spec fn each_batch_full(
    payer: [u8; 32],
    batches: Seq<Seq<InstructionView>>,
    max: int,
    upto: int,
) -> bool {
    forall|k: int|
        0 <= k < upto ==> (#[trigger] batches[k + 1]).len() > 0 && wire_len(
            payer,
            batches[k].push(batches[k + 1][0]),
        ) > max
}

/// Whether every batch of two or more instructions fits in `max` bytes.
pub open spec fn each_batch_fits(payer: [u8; 32], batches: Seq<Seq<InstructionView>>, max: int) -> bool {
    forall|k: int|
        0 <= k < batches.len() && (#[trigger] batches[k]).len() >= 2 ==> wire_len(payer, batches[k])
            <= max
}

proof fn lemma_pack_state(payer: [u8; 32], ixs: Seq<InstructionView>, max: int, i: int)
    requires
        0 <= i <= ixs.len(),
    ensures
        ({
            let (done, cur) = pack_state(payer, ixs, max, i);
            &&& done.flatten() + cur == ixs.take(i)
            &&& (i > 0 ==> cur.len() > 0)
            &&& (i == 0 ==> done.len() == 0 && cur.len() == 0)
            &&& each_batch_fits(payer, done.push(cur), max)
            &&& each_batch_full(payer, done.push(cur), max, done.len() as int)
            &&& forall|k: int| 0 <= k < done.len() ==> (#[trigger] done[k]).len() > 0
        }),
    decreases i,
{
    broadcast use Seq::lemma_flatten_push;

    if i == 0 {
        let (done, cur) = pack_state(payer, ixs, max, i);
        assert(ixs.take(0) =~= seq![]);
        assert(done.flatten() =~= seq![]);
        assert(done.flatten() + cur =~= ixs.take(i));
    } else {
        lemma_pack_state(payer, ixs, max, i - 1);
        let (d0, c0) = pack_state(payer, ixs, max, i - 1);
        let x = ixs[i - 1];
        let grown = c0.push(x);
        let all0 = d0.push(c0);
        assert(ixs.take(i) =~= ixs.take(i - 1).push(x));
        if c0.len() > 0 && wire_len(payer, grown) > max {
            let done = d0.push(c0);
            assert forall|k: int| 0 <= k < done.len() implies (#[trigger] done[k]).len() > 0 by {
                if k < d0.len() {
                    assert(done[k] == d0[k]);
                }
            }
            let cur = seq![x];
            let all = done.push(cur);
            assert(done.flatten() == d0.flatten() + c0);
            assert(done.flatten() + cur =~= ixs.take(i));
            assert forall|k: int| 0 <= k < all.len() && (#[trigger] all[k]).len() >= 2 implies wire_len(
                payer,
                all[k],
            ) <= max by {
                assert(all[k] == all0[k]);
            }
            assert forall|k: int| 0 <= k < done.len() implies (#[trigger] all[k + 1]).len() > 0
                && wire_len(payer, all[k].push(all[k + 1][0])) > max by {
                if k < d0.len() {
                    assert(all[k] == all0[k]);
                    assert(all[k + 1] == all0[k + 1]);
                } else {
                    assert(all[k] == c0);
                    assert(all[k + 1] == cur);
                    assert(all[k].push(all[k + 1][0]) =~= grown);
                }
            }
        } else {
            let all = d0.push(grown);
            assert(d0.flatten() + grown =~= ixs.take(i));
            assert forall|k: int| 0 <= k < all.len() && (#[trigger] all[k]).len() >= 2 implies wire_len(
                payer,
                all[k],
            ) <= max by {
                if k < d0.len() {
                    assert(all[k] == all0[k]);
                }
            }
            assert forall|k: int| 0 <= k < d0.len() implies (#[trigger] all[k + 1]).len() > 0
                && wire_len(payer, all[k].push(all[k + 1][0])) > max by {
                assert(all[k] == all0[k]);
                if k + 1 < d0.len() {
                    assert(all[k + 1] == all0[k + 1]);
                } else {
                    assert(all0[k + 1] == c0);
                    assert(all[k + 1][0] == c0[0]);
                }
            }
        }
    }
}

/// Packing loses, repeats and reorders no instruction: the batches, one
/// after another, are the instructions that were offered.
pub proof fn law_packing_keeps_every_instruction(
    payer: [u8; 32],
    ixs: Seq<InstructionView>,
    max: int,
)
    ensures
        packed(payer, ixs, max).flatten() == ixs,
{
    broadcast use Seq::lemma_flatten_push;

    lemma_pack_state(payer, ixs, max, ixs.len() as int);
    assert(ixs.take(ixs.len() as int) =~= ixs);
    let (done, cur) = pack_state(payer, ixs, max, ixs.len() as int);
    if cur.len() == 0 {
        assert(done.flatten() + cur =~= done.flatten());
    }
}

/// Every batch of two or more instructions serializes within the limit;
/// only a lone instruction that is too large by itself gets a batch that
/// does not.
pub proof fn law_packed_batches_fit(payer: [u8; 32], ixs: Seq<InstructionView>, max: int)
    ensures
        each_batch_fits(payer, packed(payer, ixs, max), max),
{
    lemma_pack_state(payer, ixs, max, ixs.len() as int);
    let (done, cur) = pack_state(payer, ixs, max, ixs.len() as int);
    let p = packed(payer, ixs, max);
    if cur.len() == 0 {
        assert forall|k: int| 0 <= k < p.len() && (#[trigger] p[k]).len() >= 2 implies wire_len(
            payer,
            p[k],
        ) <= max by {
            assert(p[k] == done.push(cur)[k]);
        }
    }
}

/// Packing is greedy: no batch could have taken the first instruction of
/// the next batch.
pub proof fn law_packed_batches_are_full(payer: [u8; 32], ixs: Seq<InstructionView>, max: int)
    ensures
        each_batch_full(payer, packed(payer, ixs, max), max, packed(payer, ixs, max).len() - 1),
{
    lemma_pack_state(payer, ixs, max, ixs.len() as int);
}

/// Whether the parts split the instructions, in order, into non-empty
/// batches that each serialize within `max` bytes.
pub open spec fn fitting_split(
    payer: [u8; 32],
    ixs: Seq<InstructionView>,
    max: int,
    parts: Seq<Seq<InstructionView>>,
) -> bool {
    &&& parts.flatten() == ixs
    &&& forall|k: int|
        0 <= k < parts.len() ==> (#[trigger] parts[k]).len() > 0 && wire_len(payer, parts[k]) <= max
}

/// The number of instructions in the first `k` parts.
pub open spec fn parts_len(parts: Seq<Seq<InstructionView>>, k: int) -> int {
    parts.take(k).flatten().len() as int
}

proof fn lemma_part_range(parts: Seq<Seq<InstructionView>>, k: int)
    requires
        0 <= k < parts.len(),
    ensures
        parts_len(parts, k + 1) == parts_len(parts, k) + parts[k].len(),
        parts_len(parts, k + 1) <= parts.flatten().len(),
        parts.flatten().subrange(parts_len(parts, k), parts_len(parts, k + 1)) == parts[k],
{
    broadcast use Seq::lemma_flatten_push;

    assert(parts =~= parts.take(k + 1) + parts.skip(k + 1));
    vstd::seq_lib::lemma_flatten_concat(parts.take(k + 1), parts.skip(k + 1));
    assert(parts.take(k + 1) =~= parts.take(k).push(parts[k]));
    let before = parts.take(k).flatten();
    assert(parts.flatten().subrange(before.len() as int, (before.len() + parts[k].len()) as int) =~= parts[k]);
}

proof fn lemma_pack_stays_ahead(
    payer: [u8; 32],
    ixs: Seq<InstructionView>,
    max: int,
    parts: Seq<Seq<InstructionView>>,
    i: int,
)
    requires
        fitting_split(payer, ixs, max, parts),
        0 <= i <= ixs.len(),
    ensures
        ({
            let (done, cur) = pack_state(payer, ixs, max, i);
            exists|k: int|
                0 <= k <= parts.len() && done.len() <= k && #[trigger] parts_len(parts, k) <= i
                    - cur.len()
        }),
    decreases i,
{
    if i == 0 {
        assert(parts.take(0) =~= seq![]);
        assert(parts_len(parts, 0) == 0);
    } else {
        lemma_pack_stays_ahead(payer, ixs, max, parts, i - 1);
        lemma_pack_state(payer, ixs, max, i - 1);
        let (d0, c0) = pack_state(payer, ixs, max, i - 1);
        let x = ixs[i - 1];
        let grown = c0.push(x);
        let s = i - 1 - c0.len();
        let k = choose|k: int|
            0 <= k <= parts.len() && d0.len() <= k && #[trigger] parts_len(parts, k) <= s;
        if c0.len() > 0 && wire_len(payer, grown) > max {
            assert(parts.take(parts.len() as int) =~= parts);
            if k == parts.len() {
                assert(false);
            }
            lemma_part_range(parts, k);
            let e = parts_len(parts, k + 1);
            if e > i - 1 {
                let lo = parts_len(parts, k);
                assert(ixs.take(i - 1) == d0.flatten() + c0);
                assert(ixs.take(i - 1).len() == i - 1);
                assert((d0.flatten() + c0).len() == d0.flatten().len() + c0.len());
                assert(d0.flatten().len() == s);
                assert forall|j: int| 0 <= j < c0.len() implies c0[j] == ixs[s + j] by {
                    assert((d0.flatten() + c0)[s + j] == c0[j]);
                    assert(ixs.take(i - 1)[s + j] == ixs[s + j]);
                }
                assert(grown =~= ixs.subrange(s, i));
                assert(grown =~= parts[k].subrange(s - lo, i - lo));
                crate::wire::lemma_wire_len_monotone(payer, parts[k], s - lo, i - lo);
                assert(false);
            }
            assert(parts_len(parts, k + 1) <= i - 1);
        } else {
            assert(parts_len(parts, k) <= i - grown.len());
        }
    }
}

/// Packing uses as few batches as any split of the instructions, in order,
/// into non-empty batches that each fit: the greedy choice is never beaten.
pub proof fn law_packing_uses_fewest_batches(
    payer: [u8; 32],
    ixs: Seq<InstructionView>,
    max: int,
    parts: Seq<Seq<InstructionView>>,
)
    requires
        fitting_split(payer, ixs, max, parts),
    ensures
        packed(payer, ixs, max).len() <= parts.len(),
{
    let n = ixs.len() as int;
    lemma_pack_stays_ahead(payer, ixs, max, parts, n);
    lemma_pack_state(payer, ixs, max, n);
    let (done, cur) = pack_state(payer, ixs, max, n);
    let k = choose|k: int|
        0 <= k <= parts.len() && done.len() <= k && #[trigger] parts_len(parts, k) <= n - cur.len();
    assert(parts.take(parts.len() as int) =~= parts);
    if n > 0 && k == parts.len() {
        assert(false);
    }
}

/// Packing never yields an empty batch, and so never an empty transaction.
pub proof fn law_packed_batches_are_nonempty(payer: [u8; 32], ixs: Seq<InstructionView>, max: int)
    ensures
        forall|k: int|
            0 <= k < packed(payer, ixs, max).len() ==> (#[trigger] packed(payer, ixs, max)[k]).len()
                > 0,
{
    lemma_pack_state(payer, ixs, max, ixs.len() as int);
    let (done, cur) = pack_state(payer, ixs, max, ixs.len() as int);
    let p = packed(payer, ixs, max);
    assert forall|k: int| 0 <= k < p.len() implies (#[trigger] p[k]).len() > 0 by {
        if k < done.len() {
            assert(p[k] == done[k]);
        }
    }
}

/// The batches of packing fit the limit once every instruction fits alone.
pub proof fn lemma_packed_is_fitting_split(payer: [u8; 32], ixs: Seq<InstructionView>, max: int)
    requires
        forall|i: int| 0 <= i < ixs.len() ==> wire_len(payer, seq![#[trigger] ixs[i]]) <= max,
    ensures
        fitting_split(payer, ixs, max, packed(payer, ixs, max)),
{
    broadcast use Seq::lemma_flatten_push;

    let p = packed(payer, ixs, max);
    law_packing_keeps_every_instruction(payer, ixs, max);
    law_packed_batches_fit(payer, ixs, max);
    law_packed_batches_are_nonempty(payer, ixs, max);
    assert forall|k: int| 0 <= k < p.len() implies (#[trigger] p[k]).len() > 0 && wire_len(
        payer,
        p[k],
    ) <= max by {
        if p[k].len() == 1 {
            assert(p =~= p.take(k) + p.skip(k));
            vstd::seq_lib::lemma_flatten_concat(p.take(k), p.skip(k));
            assert(p.skip(k).flatten() == p.skip(k)[0] + p.skip(k).drop_first().flatten());
            let at = p.take(k).flatten().len() as int;
            assert(p.flatten()[at] == p[k][0]);
            assert(seq![ixs[at]] =~= p[k]);
        }
    }
}

/// Room for more signatures never yields fewer transactions: with more
/// signers, while every instruction still fits alone, packing uses at least
/// as many batches.
pub proof fn law_more_signers_never_fewer_batches(
    payer: [u8; 32],
    ixs: Seq<InstructionView>,
    fewer: u32,
    more: u32,
)
    requires
        fewer <= more,
        forall|i: int|
            0 <= i < ixs.len() ==> wire_len(payer, seq![#[trigger] ixs[i]]) <= payload_limit(more),
    ensures
        packed(payer, ixs, payload_limit(fewer)).len() <= packed(payer, ixs, payload_limit(more)).len(),
{
    lemma_packed_is_fitting_split(payer, ixs, payload_limit(more));
    law_packing_uses_fewest_batches(
        payer,
        ixs,
        payload_limit(fewer),
        packed(payer, ixs, payload_limit(more)),
    );
}

/// The largest transaction that the asset program's client plans for,
/// `nifty_asset::MAX_TX_SIZE`: 1232 bytes, as the crate defines it.
#[verifier::external_body]
fn max_tx_size() -> (n: usize)
    ensures
        n == 1232,
{
    nifty_asset::MAX_TX_SIZE
}

/// `std::mem::size_of` of `solana_sdk::signature::Signature`, a wrapper
/// around 64 bytes: 64.
#[verifier::external_body]
fn signature_size() -> (n: usize)
    ensures
        n == 64,
{
    std::mem::size_of::<solana_sdk::signature::Signature>()
}

/// Packs the instructions, in order, into batches for transactions signed
/// by `num_signers` keys and paid by `payer`: every batch of two or more
/// instructions fits in one transaction, and an instruction too large to
/// fit even alone gets a batch of its own. Gives `None` when the signatures
/// alone outgrow a transaction or some transaction that packing measures
/// cannot be built.
pub fn try_pack_instructions(num_signers: u32, payer: &[u8; 32], ixs: &[Instruction]) -> (r:
    Option<Vec<Vec<Instruction>>>)
    ensures
        r is Some <==> (64 * num_signers <= 1232 && packing_compiles(
            *payer,
            views(ixs@),
            payload_limit(num_signers),
        )),
        r matches Some(b) ==> batch_views(b@) == packed(
            *payer,
            views(ixs@),
            payload_limit(num_signers),
        ),
{
    let ghost vs = views(ixs@);
    let ghost max = payload_limit(num_signers);
    let sig = signature_size();
    let max_tx = max_tx_size();
    let needed: u64 = (num_signers as u64) * (sig as u64);
    assert(needed == 64 * num_signers) by (nonlinear_arith)
        requires
            sig == 64,
            needed == (num_signers as u64) * (sig as u64),
    ;
    if needed > max_tx as u64 {
        return None;
    }
    let max_payload: usize = max_tx - sig * (num_signers as usize);
    let mut done: Vec<Vec<Instruction>> = Vec::new();
    let mut cur: Vec<Instruction> = Vec::new();
    let mut i: usize = 0;
    assert(batch_views(done@) =~= seq![]);
    assert(views(cur@) =~= seq![]);
    while i < ixs.len()
        invariant
            0 <= i <= ixs.len(),
            vs == views(ixs@),
            max == payload_limit(num_signers),
            max_payload == max,
            (batch_views(done@), views(cur@)) == pack_state(*payer, vs, max, i as int),
            forall|k: int|
                0 <= k < i ==> compiles(*payer, (#[trigger] pack_state(*payer, vs, max, k)).1.push(
                    vs[k],
                )),
        decreases ixs.len() - i,
    {
        let ghost state = pack_state(*payer, vs, max, i as int);
        let ghost old_cur = cur@;
        cur.push(ixs[i].duplicate());
        assert(views(cur@) =~= state.1.push(vs[i as int]));
        if !check_compiles(payer, cur.as_slice()) {
            assert(!packing_compiles(*payer, vs, max)) by {
                assert(!compiles(*payer, pack_state(*payer, vs, max, i as int).1.push(vs[i as int])));
            }
            return None;
        }
        let tx_len = serialized_tx_len(cur.as_slice(), payer);
        if cur.len() > 1 && tx_len > max_payload {
            let last = cur.pop().unwrap();
            let mut batch: Vec<Instruction> = Vec::new();
            std::mem::swap(&mut batch, &mut cur);
            assert(batch@ =~= old_cur);
            done.push(batch);
            cur.push(last);
            assert(batch_views(done@) =~= state.0.push(state.1));
            assert(views(cur@) =~= seq![vs[i as int]]);
        }
        i += 1;
    }
    let ghost fin = pack_state(*payer, vs, max, i as int);
    if cur.len() > 0 {
        done.push(cur);
        assert(batch_views(done@) =~= fin.0.push(fin.1));
    }
    Some(done)
}

/// Packs the instructions, in order, into batches for transactions signed
/// by `num_signers` keys and paid by `payer`: every batch of two or more
/// instructions fits in one transaction, and an instruction too large to
/// fit even alone gets a batch of its own.
///
/// An instruction joins the batch being filled when that batch is empty or
/// the unsigned transaction of the batch with it serializes within the room that the
/// signatures leave; otherwise that batch is closed and the instruction
/// starts the next one. The last batch is kept when it holds an instruction.
pub fn pack_instructions(num_signers: u32, payer: &[u8; 32], ixs: &[Instruction]) -> (r: Vec<
    Vec<Instruction>,
>)
    requires
        64 * num_signers <= 1232,
        packing_compiles(*payer, views(ixs@), payload_limit(num_signers)),
    ensures
        batch_views(r@) == packed(*payer, views(ixs@), payload_limit(num_signers)),
{
    try_pack_instructions(num_signers, payer, ixs).unwrap()
}

} // verus!
