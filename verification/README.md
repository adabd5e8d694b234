# elearning

An e-learning platform on NEAR, as a library verified with Verus, and the two
NEAR contracts around it.

Users register, become instructors, publish courses, sell them alone or in
combos, and share a course's 10000 units among co-instructors by consensus.
Students complete courses and earn certificates, skills and credits. Mentors
sell lessons whose price is held by a pool contract until each lesson is
done. Stakers stake in pools and vote for the instructor who wins a pool.

## Layout

- `src/` — the verified library. Every method takes the call's environment
  as a `CallContext` and returns what it asks the world to do (transfers,
  calls to the other contract) as values; a refused call returns a
  `ContractError` and changes nothing.
  - `collections.rs`: string-keyed maps and insertion-ordered sets with
    mathematical views.
  - `text.rs`, `repository.rs`: identifiers and hashes of messages.
  - `foreign.rs`: the calls into `unidecode`, `hex` and `near-sdk`'s JSON.
  - `elearning.rs`: the contract's state and its invariant.
  - `users.rs`, `courses.rs`, `collab.rs`, `credentials.rs`, `combos.rs`,
    `payment.rs`, `mentoring.rs`, `pools.rs`: the contract's methods.
  - `pool_contract.rs`: the pool contract.
  - `shares.rs`: totals of a course's units (a new course holds 10000;
    letting an instructor in and transferring units keep the total; the
    contract's invariant keeps every course at 10000 units or fewer).
- `tests/` — tests of the library on concrete values.
- `app/` — the NEAR contracts: environment, storage, promises. Built with
  `--cfg pool_contract`, the crate builds the pool contract.
