# fedi_crawler

A crawler of Fediverse instances. Workers take host names from a Redis
queue, check robots.txt, read the instance's nodeinfo and, for known
software, its own description API, store the result in Postgres, and queue
the peers the instance knows.

- `src/` is the verified library (Verus): which host names are accepted
  (`domain_filter`), how peer lists become batches to queue (`peers`), the
  request addresses and the robots.txt decision (`client`), the data read
  and recorded (`models`), the worker's decisions and back-off (`worker`),
  and string helpers (`text`).
- `app/` is the program around it: HTTP, Redis, Postgres, DNS and MaxMind
  lookups, JSON decoding, and the worker loop that performs what the
  library decides.
- `tests/` runs the library on concrete values.
