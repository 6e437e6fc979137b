# nifty_cli

A command-line client for the Nifty Asset program on Solana, whose deciding
core is verified with Verus.

- `src/` is the verified library:
  - `model`: instructions and account metas as plain values;
  - `wire`: the account-key table of a legacy transaction, the length of its
    serialized form, and when it can be built;
  - `transaction`: packing instructions, in order, into transactions, with
    the laws that packing keeps every instruction, yields no empty batch,
    fills each batch, keeps every batch of two or more instructions within
    the limit (an instruction too large even alone gets a batch of its own),
    uses as few batches as any split, and never uses fewer batches for more
    signers;
  - `roles`: delegate role names;
  - `instructions`: the asset program's and the compute budget program's
    instructions, built by their client crates;
  - `commands`: the arguments of each command and the instructions it sends;
  - `minting`: the transactions that mint an asset from its description;
  - `asset_file`: reading an asset file's JSON text, the `.json` names of
    asset files, and the transactions that mint an asset from its file and
    the contents of its blob files;
  - `mint_batch`: the outcome of each asset of a batch mint and the report of
    failures.
- `app/` is the program: argument handling, reading key files, asset files
  and blob files from disk, the RPC
  connection, progress bars and printing.
- `tests/` runs the library against the real outside crates.
