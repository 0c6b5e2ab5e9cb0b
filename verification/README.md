# bitcoind_tx_sync

Keeps a Lightning node (LDK) up to date with the chain as a `bitcoind` node sees it:
which watched transactions were confirmed, which transactions spend a watched output,
which confirmations a reorganisation undid, and which block is the new best block.

- `src/` is the verified library. `sync.rs` holds a sync run as a machine: each step
  takes the outcome of the last remote procedure call or notification and returns the
  next one to perform; its contract (`transition`) states every step. The `law_*`
  proof functions state properties of runs, over a run written as a sequence of such
  steps whose outcomes the caller supplies (`is_run`); those about reports assume
  that `bitcoind` answers each lookup of the transaction as confirmed (in one block,
  for the report that names the block).
  `state.rs` holds the watch sets and the registration queue, `confirm.rs` the search
  of a block for spends of watched outputs, the ordering of confirmed transactions and
  their effect on the watch sets, `chain.rs` the decisions on chain tips, `keyset.rs`
  the sets themselves, `error.rs` the errors.
- Spends of watched outputs are searched for in the blocks of the best chain above the
  block that the node was last synced to (or above the highest block of the best chain
  below it, after a reorganisation); a node that was never synced has its best block
  searched.
- `app/` holds the `SyncClient`: its locks, its `bitcoind` connection, the loop that
  performs the actions of a run, and the `Filter` interface through which LDK
  registers what to watch.
- `tests/` runs the library on concrete runs.
