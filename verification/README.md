# openarchieven

A command-line client for the openarchieven.nl genealogical API, built for
scripts and agents: every command answers with JSON (or NDJSON, a table or
Markdown), every failure with a JSON error object on standard error and a
stable exit code.

The logic is a library verified with Verus (`src/`):

- `cli`, `runtime`: the command-line values, their checks, and the request
  settings they describe (cache mode and lifetimes, page size, language);
  `ttl_bound`: which `--cache-ttl` values the duration parser reads without
  panicking.
- `commands`: for each command, the request it sends (path, query, cache
  lifetime, validation errors) and the shape it makes of the response;
  `schema_cmd` describes all commands as one JSON document.
- `client`: URLs, cache keys, the meaning of HTTP statuses, retry and cache
  decisions; `cache`: key derivation and entry lifetimes.
- `output`, `render`, `json`, `json_text`: `--fields` projection, the list
  envelope, and the JSON, NDJSON and Markdown renderings. For a table the
  library proves which header and cells are shown; the box layout of those
  cells is comfy-table's, named in the contracts and not spelled out.
- `laws`: properties that span functions, stated and proved.

`app/` is the program around it: argument parsing with clap, HTTP with
reqwest and a governor rate limiter, the cache files, and standard output.
