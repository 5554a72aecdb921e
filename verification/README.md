# hzii-net

A headless login and keep-alive client for the campus network portal
(`spos httpd/4.8`), written in Verus.

- `src/` is the verified library:
  - `crypto` — the credential encoding `Base64(AES-128-CBC-ZeroPadding(text)) + IV`
    and its inverse; the round trip is part of the encoder's contract.
  - `portal` — the request forms and the meaning of every reply
    (login, keep-alive, logout, captcha), each stated as a spec function.
  - `config`, `state` — settings and the saved session.
  - `watch` — the decisions of the resident `watch` mode as a step function,
    with its laws (failures in a row, waiting, renewal).
  - `text` — trimming, splitting, decimal numbers and excerpts.
- `app/` is the command-line program: HTTP, files, environment and the loop.
- `tests/` runs the library with the real outside crates.
