# Avalon

The deterministic core of a single-player smuggling game, written and verified
in Verus, with the daemon that serves it.

You are Cobb. You haul cargo in a Bedford TK, some of it licensed. A run is
rolled from a seed: a terrain, a cargo, a destination, somebody who hunts you.
You drive the legs, meet a beat on each, and deliver, or you are caught, break
down, lose the cargo or run dry.

## Layout

- `src/` is the library. Every item of it is verified.
  - `content`, `load`: what is authored, the checks that a boot must pass, and
    an order that does not depend on the file system.
  - `generate`, `mission`, `dice`: a fresh run, its state, and the ChaCha8
    stream that it carries.
  - `scenes`, `engine`, `road`: what the player sees, which beats can come up,
    and the single transition `step`.
  - `world`, `memory`, `inquiry`, `hearing`, `panel`: the persistent world, in
    which deeds become facts, facts become memories and gossip, and gossip is
    put to the record before a panel.
  - `dialogue`, `session`, `access`, `schema`, `safety`: what the daemon decides
    around a run.
  - `laws`, `world_laws`, and the `law_` functions beside what they speak of:
    what holds of every run and of every hearing.
- `tests/` runs the library, with the outside crates linked.
- `app/` is `avalond`: axum, SQLite, TOML files and the environment.

## What is trusted

Two outside crates are called from the library, each behind a small function
whose contract is taken on trust: `rand` with `rand_chacha` for the stream
(`src/dice.rs`), and `base64` for the credentials (`src/access.rs`).

## Running it

Content is read from `AVALON_CONTENT` (default `content/`): `world.toml`, and
the files in `storylets/` and `npcs/`. The scoreboard is `AVALON_SAVE` (default
`saves/dev.db`). `AVALON_BIND` and `AVALON_TOKEN` set the address and a password.
