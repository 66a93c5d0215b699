# ghtl

The logic of ghTimeLine, a desktop reader for GitHub activity gathered
through saved queries, as a library whose behaviour is stated in contracts
and proved with Verus.

- `src/` holds the verified library: configuration checks, saved query
  documents, the GitHub answers turned into stream items (REST search,
  discussions, projects, GraphQL enrichment), mentions, view ordering and
  patching, and the window's decisions (status line, selection, refresh,
  saved query management), each as a function from the state and what
  happened to the next state.
- `tests/` runs the library on concrete values.
- `app/` is the program around it: files, HTTP requests and the command
  line. It hands the library plain values and takes plain values
  back.
