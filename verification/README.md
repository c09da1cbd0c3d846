# minusbot

A self-hosted personal AI assistant daemon (`minusd`) with a terminal client,
a Telegram channel, scheduled jobs, skills, a memory store and a
machine-bound secret vault.

## Layout

- `src/` — the verified library (Verus). Every function carries a contract;
  the main pieces are:
  - `text`, `strmap`: string and sorted-map building blocks with
    exact specifications;
  - `secrets`, `vault`, `subvault`, `crypto`: the `secrets.env` file, the
    AES-GCM vault bound to the machine id, and per-component stores;
  - `command`, `parser`, `value`, `registry`, `builtin/*`: slash-command
    specifications, parsing, validation and the replies of every built-in
    command;
  - `schedule`, `jobs`: schedule parsing and the scheduler's job table
    (which jobs are due, what a tick fires and stores, how long to sleep);
  - `agent`, `agents`, `tools`, `tool_registry`, `providers`, `policy`: the
    decisions of the conversation loop, the built-in tools and the policy;
  - `channels`, `streams`, `client`: the decisions of the CLI and Telegram
    channels and of the terminal client;
  - `config`, `config_file`, `config_path`, `data_dir`, `records`, `runtime`: settings,
    paths, stored rows and the daemon's routing;
  - `laws`: properties across operations (what the vault and the secrets
    file read back, store isolation, the help order, word splitting).
- `tests/` — tests of the library on concrete values.
- `app/` — the daemon and the client: sockets, Telegram, SQLite, files and
  the async loops, calling the library for every decision.
