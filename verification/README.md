# smsdev

An SDK for the SMSDev SMS gateway API, with its logic verified by Verus.

- `src/` — the verified library: the request and response models, the
  description of every API call (URL and JSON body), the reading of the API's
  answers, the text helpers they rest on (ASCII case folding, trimming, decimal
  numbers), and the argument parsing and reporting decisions of the
  command-line tools.
- `app/` — the HTTP client (`reqwest`, `tokio`), the serde forms of the models,
  the error type with its `thiserror` derive, and one program that runs the
  command-line tools (named by the program's file name or its first argument).
- `tests/` — tests of the library.
