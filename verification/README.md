# evm_impl

The part of an Ethereum virtual machine that executes transactions: it checks and charges a
transaction, makes its call or create and those that the code asks for, undoes what failed, and hands
over the accounts that changed. Everything is written in Verus and proved against its contracts.

- `EVMImpl` (`src/evm_impl.rs`, and the modules under it) is the machine. `Transact::transact` does a
  transaction; as a `Host` (`src/host.rs`) it answers the interpreter that runs the code of contracts.
- The interpreter (`src/interpreter.rs`), the database (`src/db.rs`) and the inspector
  (`src/inspector.rs`) are traits. An interpreter has no access to accounts: it asks, the machine
  answers, and calls within calls are made here. It prepares the code of new contracts itself, in a
  form of its own. What an inspector does is said by the stories that
  it admits: what it may be told from now on, with its answers. The contracts of the machine say what
  its own inspector is told, event by event.
- `JournaledState` (`src/journaled_state.rs`) keeps the accounts of a transaction and a journal from
  which every change can be undone.
- The `*_model` modules say what all of this means, over sequences, maps and natural numbers. The
  `*_laws` modules prove what follows: a failed call leaves nothing behind, the gas of a transaction is
  accounted for to the last unit, no two creates hash the same bytes, an inspector that never steps in
  changes nothing, and more.

Hashing, list encoding, 256-bit arithmetic, hash maps and the built-in contracts come from `sha3`,
`rlp`, `primitive-types`, `hashbrown` and `revm_precompiles`. The functions that call them are marked
`#[verifier::external_body]`; their contracts are what is taken on trust.
