# autothesis

The verified core of AutoThesis, a local web app for iterative stock
research. `src/` is a Verus library: its functions carry `requires`/`ensures`
contracts that Verus proves from their bodies, and the public `law_*` proof
functions state properties that span several calls. The exception is a
handful of small trusted wrappers around outside crates and std (marked
`#[verifier::external_body]`), whose contracts are assumed, not proved.

- `config` — settings from environment values, with their defaults and
  parse errors; the startup checks on API keys and the search provider.
- `cancellation` — the registry of cancellation flags of running research runs.
- `prompts` — the prompt store and the names that must be present.
- `routes` — request validation and the decisions the HTTP handlers make
  (bookmarks, annotations, templates, tickers, run status, watchlists).
- `fetch` — URL safety checks before a server-side fetch, and page text
  extraction.
- `markdown` — Markdown rendering and HTML escaping.
- `price`, `providers`, `db` — URLs, cache keys, retry schedule, JSON span
  extraction, SQL fragments, database paths and migration order.
- `time` — stored instants read and written as RFC 3339 text.
- `text`, `numbers` — the string and number helpers the rest builds on.

Calls into `url`, `scraper`, `chrono`, `pulldown-cmark` and `ammonia` go through those
trusted wrappers, whose contracts name what the crates compute.

`app/` is a small unverified server around the library: it reads the
environment, opens SQLite and applies the migrations, fetches pages and
prices, talks to the model services, and serves a health check and the run
read and cancel endpoints. It does not hold the full set of pages and API
routes of the web application.
