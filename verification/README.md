# runtime-checker

Turns the APIs and syntax that a JavaScript or TypeScript codebase uses into
minimum versions of Node.js, Deno, Bun, Safari, Chromium and Firefox.

- `src/` is the library, verified with Verus: version parsing and ordering,
  the runtime databases and their lookups, source discovery rules, text
  scanning over an Aho-Corasick matcher, the state of an AST walk that turns
  nodes into detections, the merging of detections into per-runtime reports,
  the `engines.node` check and fix of `package.json`, the lines of the
  report and of the help text, and the generator that turns MDN
  browser-compat-data into runtime data files.
- `app/` is the program around it: command line, file system walk, the Oxc
  parser, the terminal, reading and writing JSON.
- `tests/` runs the library on concrete inputs.
