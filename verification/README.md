# podcast_backend

The core of a podcast publishing service, written in Verus: the podcast, episode and profile
data, the operations that change them, the resource tree where uploaded files live, and the
RSS feed of each podcast. The functions in `src/` carry contracts that Verus proves, with
three exceptions: the small wrappers around calls into other code (`model::new_id` around
`uuid`, `text::push_char` around `String::push`, `commands::json_string` around
`serde_json`), whose contracts are trusted rather than proved.

## Layout

- `src/model.rs`: the data types and their mathematical views.
- `src/store.rs`, `src/episode_store.rs`, `src/uploads.rs`: the store and its operations. An
  operation changes the document and returns what the caller must do on disk (the directories
  to move or remove, where an uploaded file goes).
- `src/episodes.rs`: ordering and renumbering of episodes.
- `src/lookup.rs`, `src/rewrite.rs`, `src/resources.rs`: lookups by identifier, resource URLs
  and sanitized path names.
- `src/rss.rs`, `src/xml.rs`, `src/text.rs`: the feed and the text it is made of.
- `src/host.rs`, `src/commands.rs`: the bookkeeping and command decisions of the browser host
  and of the desktop shell that drives it.
- `src/laws.rs`: properties of the library as a whole, proved.
- `app/`: the HTTP server (axum, tokio, the state file and the files on disk) and, for the
  macOS bundle, the CEF and Tauri glue.
- `tests/`: tests of the library on concrete values.
