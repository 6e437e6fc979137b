use nifty_cli::model::{AccountMeta, Instruction};
use nifty_cli::transaction::{pack_instructions, try_pack_instructions};
use solana_sdk::pubkey::Pubkey;

const PAYER: [u8; 32] = [1; 32];
const PROGRAM: [u8; 32] = [9; 32];

fn data_ix(len: usize) -> Instruction {
    Instruction { program_id: PROGRAM, accounts: vec![], data: vec![7; len] }
}

fn lens(batches: &[Vec<Instruction>]) -> Vec<usize> {
    batches.iter().map(|b| b.len()).collect()
}

fn same(a: &Instruction, b: &Instruction) -> bool {
    a.program_id == b.program_id
        && a.data == b.data
        && a.accounts.len() == b.accounts.len()
        && a.accounts.iter().zip(b.accounts.iter()).all(|(x, y)| {
            x.pubkey == y.pubkey && x.is_signer == y.is_signer && x.is_writable == y.is_writable
        })
}

fn short_len(n: usize) -> usize {
    if n < 0x80 {
        1
    } else if n < 0x4000 {
        2
    } else {
        3
    }
}

/// The serialized length by the layout of a legacy transaction, counted by hand.
fn layout_len(payer: [u8; 32], ixs: &[Instruction]) -> usize {
    let mut keys: Vec<([u8; 32], bool)> = vec![(payer, true)];
    let mut add = |k: [u8; 32], s: bool| match keys.iter_mut().find(|e| e.0 == k) {
        Some(e) => e.1 |= s,
        None => keys.push((k, s)),
    };
    for ix in ixs {
        add(ix.program_id, false);
        for m in &ix.accounts {
            add(m.pubkey, m.is_signer);
        }
    }
    let nsig = keys.iter().filter(|e| e.1).count();
    let body: usize = ixs
        .iter()
        .map(|ix| {
            1 + short_len(ix.accounts.len()) + ix.accounts.len() + short_len(ix.data.len()) + ix.data.len()
        })
        .sum();
    short_len(nsig) + 64 * nsig + 3 + short_len(keys.len()) + 32 * keys.len() + 32 + short_len(ixs.len()) + body
}

fn sdk_len(payer: [u8; 32], ixs: &[Instruction]) -> usize {
    let sdk: Vec<solana_sdk::instruction::Instruction> = ixs
        .iter()
        .map(|ix| solana_sdk::instruction::Instruction {
            program_id: Pubkey::new_from_array(ix.program_id),
            accounts: ix
                .accounts
                .iter()
                .map(|m| solana_sdk::instruction::AccountMeta {
                    pubkey: Pubkey::new_from_array(m.pubkey),
                    is_signer: m.is_signer,
                    is_writable: m.is_writable,
                })
                .collect(),
            data: ix.data.clone(),
        })
        .collect();
    let tx = solana_sdk::transaction::Transaction::new_with_payer(&sdk, Some(&Pubkey::new_from_array(payer)));
    bincode::serialize(&tx).unwrap().len()
}

#[test]
fn serialized_length_follows_the_legacy_layout() {
    let mixed = vec![
        Instruction {
            program_id: PROGRAM,
            accounts: vec![
                AccountMeta { pubkey: [2; 32], is_signer: true, is_writable: false },
                AccountMeta { pubkey: PAYER, is_signer: false, is_writable: false },
                AccountMeta { pubkey: [3; 32], is_signer: false, is_writable: true },
            ],
            data: vec![1; 130],
        },
        Instruction {
            program_id: [4; 32],
            accounts: vec![AccountMeta { pubkey: [2; 32], is_signer: false, is_writable: true }],
            data: vec![],
        },
        data_ix(20000),
    ];
    for n in 0..=mixed.len() {
        assert_eq!(sdk_len(PAYER, &mixed[..n]), layout_len(PAYER, &mixed[..n]));
    }
    assert_eq!(sdk_len(PAYER, &[data_ix(600)]), 770);
}

#[test]
fn packing_an_empty_list_gives_no_batch() {
    let batches = pack_instructions(2, &PAYER, &[]);
    assert!(batches.is_empty());
}

#[test]
fn small_instructions_share_one_batch() {
    let ixs: Vec<Instruction> = (0..3).map(|_| data_ix(10)).collect();
    let batches = pack_instructions(2, &PAYER, &ixs);
    assert_eq!(lens(&batches), vec![3]);
}

#[test]
fn packing_keeps_every_instruction_in_order() {
    let ixs: Vec<Instruction> = (0..20).map(|i| data_ix(90 + i)).collect();
    let batches = pack_instructions(2, &PAYER, &ixs);
    let flat: Vec<&Instruction> = batches.iter().flatten().collect();
    assert_eq!(flat.len(), ixs.len());
    for (a, b) in flat.iter().zip(ixs.iter()) {
        assert!(same(a, b));
    }
}

#[test]
fn packed_batches_fit_the_limit() {
    let ixs: Vec<Instruction> = (0..20).map(|_| data_ix(100)).collect();
    let batches = pack_instructions(2, &PAYER, &ixs);
    // 166 bytes of frame and 103 bytes per instruction: nine fit in 1104 bytes.
    assert_eq!(lens(&batches), vec![9, 9, 2]);
    for b in &batches {
        assert!(sdk_len(PAYER, b) <= 1232 - 2 * 64);
    }
}

#[test]
fn packed_batches_are_full() {
    let ixs: Vec<Instruction> = (0..20).map(|_| data_ix(100)).collect();
    let batches = pack_instructions(2, &PAYER, &ixs);
    for k in 0..batches.len() - 1 {
        let mut grown: Vec<Instruction> = batches[k].iter().map(|ix| ix.duplicate()).collect();
        grown.push(batches[k + 1][0].duplicate());
        assert!(sdk_len(PAYER, &grown) > 1232 - 2 * 64);
    }
}

#[test]
fn each_large_instruction_gets_its_own_batch() {
    let ixs: Vec<Instruction> = (0..3).map(|_| data_ix(600)).collect();
    let batches = pack_instructions(2, &PAYER, &ixs);
    assert_eq!(lens(&batches), vec![1, 1, 1]);
}

#[test]
fn fewer_signers_leave_more_room() {
    // 100 bytes per instruction: nine fit in 1104 bytes, ten in 1168.
    let ixs: Vec<Instruction> = (0..20).map(|_| data_ix(97)).collect();
    assert_eq!(lens(&pack_instructions(2, &PAYER, &ixs)), vec![9, 9, 2]);
    assert_eq!(lens(&pack_instructions(1, &PAYER, &ixs)), vec![10, 10]);
}

#[test]
fn an_oversized_instruction_gets_a_batch_of_its_own() {
    let ixs = vec![data_ix(2000), data_ix(10), data_ix(2000)];
    let batches = pack_instructions(2, &PAYER, &ixs);
    assert_eq!(lens(&batches), vec![1, 1, 1]);
    assert_eq!(batches[0][0].data.len(), 2000);
    assert!(batches.iter().all(|b| !b.is_empty()));
}

#[test]
fn more_signers_never_give_fewer_batches() {
    let ixs: Vec<Instruction> = (0..20).map(|_| data_ix(97)).collect();
    let mut last = 0;
    for signers in 0..=5 {
        let n = pack_instructions(signers, &PAYER, &ixs).len();
        assert!(n >= last);
        last = n;
    }
}

#[test]
fn too_many_signers_for_a_transaction() {
    assert!(try_pack_instructions(20, &PAYER, &[data_ix(1)]).is_none());
    assert!(try_pack_instructions(19, &PAYER, &[data_ix(1)]).is_some());
}

#[test]
fn a_batch_with_too_many_signing_keys_cannot_be_built() {
    let accounts: Vec<AccountMeta> = (0..300u32)
        .map(|i| {
            let mut k = [0u8; 32];
            k[..4].copy_from_slice(&i.to_le_bytes());
            k[31] = 5;
            AccountMeta { pubkey: k, is_signer: true, is_writable: false }
        })
        .collect();
    let ix = Instruction { program_id: PROGRAM, accounts, data: vec![] };
    assert!(try_pack_instructions(2, &PAYER, &[ix]).is_none());
}

#[test]
fn packing_uses_fewest_batches() {
    // 166 bytes of frame and 103 bytes per instruction: a split by hand into
    // parts of eight, eight and four fits, and needs as many batches.
    let ixs: Vec<Instruction> = (0..20).map(|_| data_ix(100)).collect();
    let mut start = 0;
    for size in [8, 8, 4] {
        assert!(sdk_len(PAYER, &ixs[start..start + size]) <= 1232 - 2 * 64);
        start += size;
    }
    assert!(pack_instructions(2, &PAYER, &ixs).len() <= 3);
}

#[test]
fn the_key_table_holds_each_key_once() {
    let ix = Instruction {
        program_id: PROGRAM,
        accounts: vec![
            AccountMeta { pubkey: [2; 32], is_signer: false, is_writable: true },
            AccountMeta { pubkey: [2; 32], is_signer: true, is_writable: false },
            AccountMeta { pubkey: PROGRAM, is_signer: false, is_writable: false },
        ],
        data: vec![],
    };
    let t = nifty_cli::wire::build_key_table(&PAYER, &[ix]);
    let rows: Vec<([u8; 32], bool, bool)> = t.iter().map(|m| (m.pubkey, m.is_signer, m.is_writable)).collect();
    assert_eq!(rows, vec![(PAYER, true, true), (PROGRAM, false, false), ([2; 32], true, true)]);
    assert_eq!(nifty_cli::wire::role_counts(&t), (2, 1));
}
