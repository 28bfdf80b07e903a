# swym

A low level software transactional memory: an epoch based, per object TL2 design in which every
transactional location carries an epoch lock, read write transactions log their reads and writes
and commit them under the locks, and garbage is dropped once every thread has moved past the
epoch it was retired in.

## Layout

- `src/` is the verified library. Each module states its behaviour in `requires`/`ensures`
  contracts over mathematical models and proves them with Verus:
  - `epoch`: the epoch encoding, epoch locks, thread epochs and the global clock;
  - `read_log`, `write_log`, `bloom`, `commit`: the logs of a transaction and the commit protocol;
  - `tcell`, `tcell_view`, `rw`, `tx`: transactional locations, transactions and their errors;
  - `gc`, `quiesce`: garbage bags sealed with epochs and the list of participating threads;
  - `starvation`, `thread`: the backoff policy, the starvation lock and the decisions of the
    retry loops;
  - `fvec`, `frw_lock`, `htm`, `stats`, `freeze`, `usize_aligned`: supporting pieces.
- `app/` is the runtime around it: statics, thread local state, the retry loops, parking with
  `parking_lot_core`, garbage collection waits and statistics printing. It performs the actions
  the library decides.
- `tests/` exercises the library on concrete values.

Every atomic operation is modelled without a value, so the operations on atomic words state no
value: what the library proves is what it does with whatever value a load or a compare-exchange
observed, for instance that a lock taken was taken on a word at or before the pin.
