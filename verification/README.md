# near-workspaces-tools

Tools for testing NEAR smart contracts in a `near-workspaces` sandbox, with
the logic verified by Verus.

- `src/` is the verified library:
  - `u128_impl`, `timestamp_impl`: token amounts with and without decimals,
    timestamp units, and how far to move the sandbox clock;
  - `decimal`: reading and writing `u128` amounts as decimal text;
  - `text`: searching text (error messages, log lines);
  - `outcome`: what `assert_success` / `assert_failure` decide about a call
    and what they print;
  - `registry`, `context`: the sandbox context, which keeps deployed
    contracts and tokens by name, and its builder;
  - `types`, `near`: shared records and the sandbox types carried through.
- `app/` talks to the sandbox: deploying, calling, viewing, printing and
  panicking, JSON, and the extension traits over `near-workspaces` results.
- `tests/` runs the library on concrete values.
