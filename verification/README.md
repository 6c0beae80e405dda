# pincer-cli

A terminal client for Lobsters and Hacker News. The state machine behind the screen,
the rules for caching, loading and prefetching stories, the comment-thread handling,
the settings resolution and the texts the screen shows are a library whose behaviour is
stated in `requires`/`ensures` contracts and proved with Verus.

## Layout

- `src/` — the verified library:
  - `app.rs`: the application state (`App`), its flow states, caches, search, collapse
    and selection rules;
  - `control.rs`: what a key press does, planning refreshes and prefetches, taking in
    the results of background fetches, opening links;
  - `settings.rs`, `config.rs`, `state.rs`: configuration file, environment overrides
    and saved state;
  - `api.rs`, `hn.rs`, `markup.rs`, `wrap.rs`: stories, comments, feed URLs, Hacker News
    items and threads, HTML to plain text, comment wrapping;
  - `cache.rs`: cache entries and their freshness;
  - `keymap.rs`: the vim and plain key bindings;
  - `screen.rs`: the texts, row layouts and colours of the screen;
  - `text.rs`: string helpers with their specifications;
  - `laws.rs`: properties that relate several operations.
- `app/` — the program around it: terminal, event loop, HTTP, files and drawing.
- `tests/` — tests of the library.
