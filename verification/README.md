# yx library

The logic of `yx`, the Yocto/kas workflow tool, with each function's
behaviour stated in its contract and proved.

- `src/config.rs` — project configuration: documented defaults and the
  reader of `.yx/project.toml` (sections, `key = value`, comments, quotes).
- `src/env.rs` — the `yx-env` markers of the environment.
- `src/cmd.rs` — command specifications and their printed, shell-quoted form.
- `src/shell.rs` — shell quoting, JSON escaping, the `--` split, and a model
  of how a shell reads words back.
- `src/plan.rs` — what an invocation comes to (`Step`), flag handling.
- `src/internal.rs` — the executor inside the environment (env, kas,
  BitBake, doctor, handshake).
- `src/external.rs` — the host launcher (`nix develop` or container entry).
- `src/text.rs` — the character-level text model shared by all of them.
- `app/` — the program: filesystem, environment variables, processes and
  output. Invoked as `yx-internal` it acts as the executor, as
  `yx-external` as the launcher, and as `yx` as the executor inside
  `yx-env` (`YXENV=1`) and the launcher elsewhere.
