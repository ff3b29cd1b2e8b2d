# ruskkserv

An skkserv proxy for macSKK: lookups go to azoo-key-skkserv first and to
yaskkserv2 on a miss; okuri-ari midashi (`かk`, `交ぜGak`, `ねあ*げ`) are
expanded into readings whose stems are collected; candidates are ranked by a
hand-edited seed file (`~/.ruskkserv-frequency.json`) and by the word
confirmed just before.

## Layout

- `src/` — the library, verified with Verus:
  - `protocol.rs` request lines (parse, encode), with the round-trip law;
  - `encoding.rs` EUC-JP / UTF-8 conversion (through `encoding_rs`) and the
    candidate lists of responses, with the format/parse law;
  - `okuri.rs` okuri-ari parsing, reading expansion, stem extraction;
  - `frequency.rs`, `alias.rs`, `ranking.rs`, `strmap.rs` the seed tables,
    their prefix aliases and the stable score ranking;
  - `dict_import.rs` importing an SKK-JISYO user dictionary;
  - `session.rs` the decisions of a client session (framing, shared
    context, fallback and time budgets), with the context laws;
  - `backend.rs` per-upstream request/response conversion and the retry
    decision of one exchange;
  - `bayesian.rs`, `config.rs`, `text.rs` the rest.
- `app/` — the program: command line, sockets (tokio), signals, the seed
  file on disk (serde).
- `tests/` — tests of the library.
