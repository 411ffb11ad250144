# pankosmia_web

The logic of the Pankosmia web server, verified with Verus.

- `src/` is the library. `text`, `json`, `string_map`, `paths` and
  `responses` hold the building blocks (strings, a JSON value with its
  mathematical model, a string-keyed map with distinct keys, request paths,
  the server's JSON replies); `structs` the server state and request forms;
  `endpoints/` what each group of routes decides and computes: settings,
  translations, navigation, gateways, git repositories, new content,
  Scripture Burrito metadata, the notification stream, story videos and
  the server itself. `outside` holds the few calls into other crates
  (regex, md5, uuid, serde_json, time), each with the contract it is
  trusted to meet.
- `app/` is the web server around the library: routes, file and network
  I/O, git work, the event stream loop and the configuration at start-up.
- `tests/` run the library on concrete values.
