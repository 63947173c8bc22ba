# steam_tradeoffer_manager

A manager of Steam trade offers whose logic is verified with Verus.

- `src/` is the verified library: the rules for acting on offers, polling and the state it
  keeps, paging through offers and inventories, combining items with their descriptions, the
  classinfo cache, and the readers of Steam's pages, cookies and error responses. Calls into
  outside crates (`url`, `scraper`, `lfu_cache`, `tf2-price`, `steamid-ng`, `rand`, the `regex`
  crate through `lazy-regex`) sit behind small trusted wrappers whose contracts state what the
  crates' sources show.
- `app/` holds the I/O around it: the HTTP client, JSON bodies, files, and the polling task.
- `tests/` runs the library on concrete inputs.
