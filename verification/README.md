# Invoice Liquidity Network

Freelancers sell their invoices at a discount; liquidity providers fund them and
are paid when the client settles. This crate holds the rules of the three
contracts behind it, verified with Verus:

- `invoice_liquidity`: an invoice from submission to settlement, default, appeal
  or dispute; the queue of providers; scores, fees, volumes and the token
  allowlist.
- `iln_governance`: proposals, votes by token weight, and delegation.
- `reputation_bonus`: a cheaper discount rate for those who pay.

## How it is laid out

`src/` is the verified library. A contract is a set of functions on an `Env`: the
ledger, what is in storage, and the ordered list of calls asked of the host
(authorisations, transfers, events, calls to other contracts). Each function
states the exact `Env` that it leaves behind, when it refuses and why.

- `model.rs`, `contributions.rs`, `arith.rs`, `lifecycle.rs`: what the entries
  mean, as spec functions.
- `submission.rs`, `funding.rs`, `settlement.rs`, `defaults.rs`, `disputes.rs`,
  `contract.rs`, `config.rs`: the entry points.
- `chain.rs`, `links.rs`, `weights.rs`: delegations as a graph, the weight that
  flows along it, and what it adds up to.
- `laws.rs`, `behaviour.rs`, `money.rs`, `runs.rs`: what holds across entry points.
- `limits.rs`: whether a call stays within what its numbers can hold. Entry points
  whose numbers could run over ask for that beforehand.

`app/` runs the library on the network: it reads storage into an `Env`, calls the
library, writes the entries back and performs the calls.

`tests/` plays the contracts through on a host that keeps a book of balances.
