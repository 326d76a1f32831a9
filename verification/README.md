# shmtu

Client logic for the Shanghai Maritime University campus services (CAS
login, e-card bills, hot water) and for the captcha OCR models, written as
a Verus library with its behaviour stated in contracts and proved.

- `src/` — the verified library. Parsers of the campus pages, the meaning
  of the login replies, bill merging, classification and synchronisation,
  CSV rows, model release and manifest handling, the course of a model
  download (mirror fallback, reuse of a file already there, digest check),
  the OCR service's decisions and request counters. Calls into `scraper`, `regex`, `chrono`, `csv`, `base64` and
  `sha2` go through a few small trusted wrappers, each documented where it
  stands.
- `tests/` — tests of the library on concrete values.
- `app/` — the command-line client: HTTP exchanges (`reqwest`, `tokio`),
  files, the terminal, the OCR services' sockets, JSON and TOML files
  (`serde`, `serde_json`, `toml`), and the floating-point readings.
