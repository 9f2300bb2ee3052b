# contribai

The decision-making core of ContribAI, an agent that finds open source
repositories, analyzes them, generates fixes and follows its pull requests
through review, written in Verus with every function's behaviour stated in
`requires` / `ensures` and proved.

## Layout

- `src/` — the verified library.
  - `analysis/` — language detection, symbol extraction over tree-sitter
    syntax trees, context compression and signature outlines, framework
    detection.
  - `generator/` — prompts, branch names, commit messages and the quality
    gate that scores a generated contribution.
  - `github/` — search queries, de-duplication, filtering and prioritizing
    of discovered repositories.
  - `orchestrator/` — the pipeline's decisions (finding filters, merging of
    contributions, hunt rounds), the pipeline run, hunt mode and a
    repository's run as state machines (`runs.rs`), and the outcome
    history's learned preferences and dream profiles.
  - `pr/` — PR bodies, titles, compliance and CLA handling, and the patrol's
    handling of review feedback and CI.
  - `llm/` — provider selection, message shapes, endpoints, retry schedule.
  - `mcp/` — the MCP tool table, argument reading and JSON-RPC routing.
  - `web/` — API-key checks, webhook signatures and the dashboard's
    statistics and rankings.
  - `common/` — data models, configuration defaults and the leaderboard.
  - `ranking.rs` — the stable ranking used by the leaderboard, the
    dashboard and repository discovery, with its ordering law.
  - `text.rs`, `pattern.rs` — verified string helpers and the regular
    expression calls.
- `tests/` — tests run against the compiled library with the real outside
  crates.
- `app/` — the `contribai` program: command line, terminal output, the
  SQLite history, the axum dashboard, the MCP stdio loop, GitHub REST
  calls, and the loops that drive the run, hunt and repository machines.

## What the program does not include

The repository analyzer, the contribution generator, the LLM providers'
network calls, the risk classifier, the issue solver, the middleware chain,
and the setup wizard are not part of this program. The
pipeline commands (`run`, `hunt`, `target`, `analyze`, `profile`,
`watchlist`) run their state machines, but each repository run stops at the
analysis step with an error; `patrol` collects and records review feedback
and cleans up PRs GitHub no longer has, but cannot classify or answer the
feedback; `solve`, `schedule` and `init` report that their engine is
missing.
