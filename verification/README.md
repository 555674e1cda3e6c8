# stellar_split

Invoice and payment-splitting logic of the StellarSplit contracts and the
per-creator dashboard, verified with Verus.

The library keeps the contract's whole state in `SplitContract` (and
`DashboardContract`) and gives every entry point a contract over a
mathematical view of that state (`SplitView`). A call does not touch the
ledger itself: it returns the host actions it needs (authorizations, token
transfers, events, calls to other contracts) as a list of `Action`s, and
takes the answers of outside contracts (ledger time, governance approval,
oracle price, KYC result, DEX output, NFT balance) as arguments.

Layout:

- `src/` — the verified library. `types`, `invoice`, `state` and `terms`
  hold the data and its views; `create`, `pay`, `paths`, `release`,
  `tranches`, `payouts`, `refunds`, `lifecycle`, `groups`, `copies`,
  `admin` and `queries` the entry points with their outcome specifications;
  `distribution` and `math` the share arithmetic; `proofs` the hashed
  completion and payment proofs (SHA-256 through the ledger host);
  `compact` the compact byte form of an invoice; `dashboard` the dashboard
  contract; `laws` the properties that span several operations.
- `tests/` — scenario tests, error cases and each law on concrete values.
- `app/` — the ledger-host side: maps ledger addresses to the library's
  numbered ones, asks outside contracts for their answers and performs the
  returned actions.
