# klayer

A grounded knowledge layer for language models, served as one MCP server. It keeps
knowledge by domain with a trust tier for each item, recalls it with its provenance,
enforces only what a person has validated, and keeps a log of every step.

The logic is a library verified with Verus; the program around it is ordinary Rust.

## Layout

- `src/` is the library. Every function states what it returns or changes, over
  mathematical models of its types, and Verus proves it.
- `tests/` runs the library, with the outside crates linked.
- `app/` is the program: the databases, the MCP server, the dashboard, the terminal
  screen, and the network.

## The library

| Module | What it holds |
|---|---|
| `types` | kinds, trust tiers, and the rows that are handed out |
| `store` | the knowledge tables: items and their conflicts, domains, sources and chunks, permissions, the log of steps, retention, media, the model registry, recall |
| `gate` | enforced domains: framing, and changes that need a recall before them |
| `compliance`, `pdf` | the compliance report, and its layout on pages |
| `codebase`, `index`, `lang`, `symbols` | the code index |
| `session` | the journal of a repository |
| `train` | training examples, their gate, and their export |
| `ingest`, `html` | reading documents and cutting them into chunks |
| `search` | web search engines and their answers |
| `redact` | personal data taken out before anything is stored |
| `embed` | texts as vectors of whole numbers |
| `notify`, `health` | what is told to a webhook, and how synced files fare |
| `marketplace`, `dashboard`, `status` | templates, and what the screens show |
| `settings` | the command line, the environment, and clients' configurations |
| `skill` | the router file |
| `tools` | what each tool does |
| `text`, `unicode`, `like`, `order`, `table`, `hex`, `json`, `calendar`, `media` | the ground that the others stand on |

A store is a set of tables in memory. The program reads them from the database, lets a
function of the library work on them, and writes back what changed, in one transaction.
Times are handed in. A function that adds a row says in its result when no number is left
for it.

Besides the contracts, public proof functions state what holds across functions: that a
proposal is not in force until it is promoted, that a sweep removes exactly what has
expired, that an example from the model under training is never exported, and more. Each
stands next to the functions that it speaks of.

## What is trusted

A few functions call outside crates: `regex`, `scraper`, `serde_json`, `chrono`, `sha2`,
`base64`, `urlencoding` and `rand`. Each such call stands in a wrapper of its own, whose
comment says what is claimed of it. Where what a crate returns would take pages to state,
the result has a name, and the function that works on the result takes it as an argument.

Floating-point numbers stay in the program: scores, costs, unit vectors, and coordinates
on a page. The library carries an order-preserving integer, a position in a ranking, or
the bits in their place.
