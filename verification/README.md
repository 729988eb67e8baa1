# open_grant

A verified library for quadratic funding of open-source projects, with the
storage migration of the nicks pallet.

- `src/` — the library, verified with Verus. `model.rs` states each call as a
  function of the state; `pallet.rs` implements the calls and proves them
  against it; `laws.rs` proves what holds across calls: the funds are
  accounted for, the rounds that are not canceled follow one another, and,
  with block numbers that never decrease, the rounds and grants stay
  consistent over any sequence of calls (a canceled grant never changes again,
  a finalized round allots at most its pool and less than one unit per grant
  below it). A grant is paid out at most once, whatever calls come between. The laws on funds and consistency assume the calls stay
  within the machine's integers, as the calls' preconditions demand.
- `tests/` — tests on concrete values.
- `app/` — the calls with the chain's currency, identity registry and storage,
  and a serializable copy of `Project`.
