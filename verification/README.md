# swiftramp_swap

A fixed-rate currency swap contract, verified with Verus.

An admin, set once, publishes a rate and registers a token for each currency
code. Anyone may swap an amount of one currency for another: the payout is
`amount * rate_to / rate_from`, rounded toward zero, and the swap is refused if
that is below the floor that the sender named. Rates and amounts are scaled by
`RATE_SCALE` (seven decimal places). A swap may carry a 32-byte commitment,
which serves once; all zeros means that there is none.

## Layout

- `src/` is the contract, all of it verified. Entry points work on an `Env`
  of plain values and record in its journal what they ask of the host.
- `app/` runs it on a Soroban host: it reads the entries under the keys that
  `footprint` names, makes the call, and performs the journal in order.
- `tests/entry_points.rs` runs the entry points by themselves;
  `tests/on_the_host.rs` deploys them on a test host with real tokens,
  authorization and rollback.

## Errors

| Code | Error | When |
|---|---|---|
| 1 | `NotInitialized` | an admin call before there is an admin |
| 2 | `AlreadyInitialized` | `initialize` when there is one |
| 3 | `NotAdmin` | an admin call by anyone else; no authorization is asked for |
| 4 | `UnknownCurrency` | a currency without a rate, or without a token |
| 5 | `SlippageExceeded` | a payout below the floor |
| 6 | `ZeroAmount` | an amount or a rate that is not positive |
| 7 | `CommitmentAlreadyUsed` | a commitment that served before |
| 8 | `AmountOverflow` | an amount times a rate outside of 128 bits |

No entry point panics: every refusal is one of these.

## Refused calls

A swap marks its commitment before it looks up the tokens, so a swap that is
refused for a missing token has the mark in its journal. The host undoes what a
refused or aborted call did; `laws` states both views.
