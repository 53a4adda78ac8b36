# wiki_storage

The storage side of a documentation wiki for game mods: how a project's files are
laid out and read, how its data (tags, recipes, content pages, workbenches) is taken
in, how a version is deployed, and the small rules around them (configuration,
search documents, caches, game data downloads).

- `src/` is the library, written in Verus: Verus proves every function against its
  contract; nearly all state one (a few constructors of unit-like values need none). Calls into outside crates (`serde_json`, `quick-xml`, `url`,
  `chrono`, `convert_case`, `infer`, `markdown`) go through a few trusted wrappers,
  each documented with what it claims of the crate.
- Long-running work that waits on the outside world (a deployment, an ingestion run)
  is a state machine in the library: given its state and what just happened, it says
  what to do next. The caller performs the action and reports back.
- `tests/` exercises the library on concrete inputs.
- `app/` is the executable around it: configuration loading, logging, and the file
  system work. It lists folders and reads files, hands what it found to the library
  (which decides which entries a tree shows and in what order, which tag files count,
  what cleaning removes, what a page's title is), and carries out what comes back.
  The database, git, search and web parts of the service are not part of this build,
  so nothing here drives the deployment and ingestion state machines yet.
