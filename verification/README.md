# cs2kz-api

The domain logic of the CS2KZ API, written in Verus. The functions in `src/`
carry contracts that Verus proves, except for a few small functions marked
`#[verifier::external_body]` that call the standard library or the `semver`
crate; their contracts are trusted, and each says in its doc comment what it
claims of the call.

- `src/maps`: map, course and filter names, IDs and descriptions; request
  validation for creating and updating maps; merging the rows of map queries
  into maps; planning of course and filter updates; recognising downloaded
  map files.
- `src/players`, `src/users`, `src/servers`: player names, player lists and
  rating checks.
- `src/plugin`: plugin versions (ordered as semantic versions) and checks on
  new releases.
- `src/points`: tier baselines of record points, and the decisions of the
  points daemon (what to do after each piece of outside work, and how points
  are written in batches).
- `src/openapi`: pagination parameters and response status codes.
- `src/text.rs`: decimal integers as the standard library reads and writes
  them.

`tests/` exercises the library on concrete values. `app/` holds what Verus
does not check: serde forms of the library's types, the floating-point
points formulas, the points daemon's driver loop and the directory scan for
downloaded maps.
