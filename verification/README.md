# framework

The core of a small web framework, written in Verus with its contracts proved.

- `src/` is the verified library:
  - `routing`: routes (a method, a path template with `{name}` variables, an
    action) and the router that finds the first route matching a request path,
    answering 405 where that route serves another method;
  - `http`: `HttpError`, and `HttpRequest`, which keeps the variables a matched
    path recorded;
  - `cli`: the registry of command-line options and the parser of arguments;
  - `env`: the application environment and its settings;
  - `app`: error-page messages and the errors a request can end in;
  - `support`: text helpers, association lists, log file selection, and the
    `regex` crate behind a small trusted interface;
  - `action`, `template`, `vite`: answers of actions and Vite manifest chunks.
- `app/` is the server around it: hyper, tokio, minijinja templates, sea-orm,
  `.env` loading, log files and panic logging.
- `tests/` exercises the library on concrete values.
