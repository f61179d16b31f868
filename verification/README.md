# actix_app_api

A small web service around a Postgres store of function signatures and token
lists. The verified library in `src/` holds the service's own logic, each
function with a contract proved by Verus:

- `version`: the short and long version strings and the default extradata,
  with their byte-length bounds;
- `port`: parsing the `PORT` setting as `u16::from_str` does, rendering the
  listen address, and the round trip between the two;
- `visit`: the worklist of a directory walk, and the law that a whole walk
  over a finite tree yields every file exactly once;
- `logging`: which tracing layers a configuration installs, the filter in
  force, and the service name traces are exported under;
- `health`, `models`, `four_bytes`, `token_list`, `cli`: the records the
  service exchanges and the addresses it fetches from.

`app/` is the program around it: the command line, the HTTP server and its
handlers, the database queries, the HTTP clients and the tracing subscriber.
