# nitrocop

Ruby style checks ("cops") for RSpec, security and general style, written in
Verus. Each cop takes a Ruby syntax tree (or the source text) and returns its
offenses and, where the cop corrects, the text edits; its contract states both
exactly, as spec functions over the tree and the text.

Layout:

- `src/` — the verified library: the source text model (`source`), the syntax
  tree (`ast`), offenses and edits (`diagnostic`), byte helpers (`bytes`),
  configured regular expressions (`pattern`, through the `regex` crate) and
  the cops under `src/cop/`.
- `tests/` — the cops run on Ruby source parsed by `ruby-prism`.
- `app/` — parsing with `ruby-prism` into the library's tree, and the float
  reading that Style/ExponentialNotation needs.
