# ip_pool

A pool of free HTTP/HTTPS/SOCKS proxies. A background task crawls proxy-list
sites, checks every stored proxy every ten minutes, and keeps them in Redis;
an HTTP service (`GET /cache/ip`, `GET /cache/count`) hands out checked
proxies.

## Layout

- `src/` — the library, verified with Verus:
  - `text.rs`: string operations with exact specifications (trim, search,
    split, replace, decimal parsing and printing).
  - `glob.rs`: `*`-pattern matching, proved equal to the glob language.
  - `model.rs`: `IpDetail` (a stored proxy, with `live`/`died`) and
    `CrawlingRule`.
  - `crawling.rs`: protocol and anonymity-level normalisation, text cleaning,
    page addresses, turning table rows into proxies, plain-text `ip:port`
    lists, the choice between the two kinds of source, and the crawl's size
    limit.
  - `html.rs`: reading table rows out of an HTML page with `scraper`.
  - `ip_cache.rs`: address checks, Redis key layout, proxy URLs, storage
    plans, request lookups, the random search among live sets, key scans.
  - `cache.rs`: the time-limited cache of live-set keys.
  - `task.rs`: the crawl/verify schedule and what a check leads to.
  - `laws.rs`: properties spanning several functions, proved.
- `app/` — the service around the library: Redis, HTTP (actix-web), proxy
  checks (reqwest), the background task (tokio), JSON records (serde).
- `tests/` — tests of the library on concrete values.

Crawling rules are read at run time from `resource/crawling_rules.json`.
