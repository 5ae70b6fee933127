# infinigit

The `infinigit` command line: browser-linked authentication for InfiniGit
(`auth login|status|reauth|logout|link-device`), repository import
(`import <source> <igit://host/namespace/repository>`) and end-to-end
encrypted secret vaults (`secrets vaults|create|list|set|unset|put|pull|run|rotate|delete|access`).

The decisions are a library verified with Verus; the program around it only
performs what the library asks for.

## Layout

- `src/` — the verified library.
  - `command.rs`: which command an argument list and the environment ask for.
  - `session.rs`: the `auth` and `import` commands as a state machine: which
    `git`/`icp` run comes next and what each outcome means.
  - `vault_session.rs`: the `secrets` commands as a state machine: repository
    resolution, canister calls, vault keys, encryption and decryption.
  - `vault.rs`, `secrets.rs`: vault data, permissions, repository URLs and the
    text the commands print.
  - `dotenv.rs`: reading dotenv files and writing dotenv or shell text.
  - `vetkeys.rs`: vault keys and secret encryption through `ic-vetkeys`.
  - `process.rs`: what a process outcome means, Git configuration commands and
    the arguments of an `icp canister call` (hex through the `hex` crate).
  - `names.rs`, `args.rs`, `text.rs`, `fmt.rs`: validation, flags, string and
    number helpers with their specifications.
  - `laws.rs`: properties that span functions (accepted command lines, what
    the sessions never do, dotenv round trips).
- `tests/` — tests of the library on concrete values.
- `app/` — the program: environment, processes, files, terminal prompts and
  the Candid encoding of canister calls.
