# ops_desk

Monitoring logic for an ops dashboard that watches deployed customer sites.

`src/` is a Verus-verified library:

- `checks` — the four probes of a site (homepage, critical CSS, `robots.txt`,
  `sitemap.xml`), judging a probe's HTTP outcome into a stored result with its
  failure reason, planning a check run and summarising it.
- `urls` — joining base URLs and paths, and the `https://` base URL of a domain.
- `railway` — reading app services and their domains out of the JSON printed by
  `railway status --json`.
- `sync` — planning which site rows an inventory sync writes, and which
  services it reports as having no domain.
- `json` — the JSON document model the inventory reader works on, and reading
  it from bytes with `serde_json`.
- `config` — reading scheduler flags and the check interval from settings.
- `decimal`, `text` — decimal text and character-level rules (trimming, ASCII
  case, prefixes) that the above are stated in.
- `error` — the error a request ends with.

`app/` is the HTTP service around it: Axum routes, SQLx queries against
Postgres, the Reqwest probes, the Railway CLI call and the scheduler loop.
`tests/` exercises the library on concrete values.
