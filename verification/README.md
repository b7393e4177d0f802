# scholarships

The logic of the Region 15 scholarship application, verified with Verus:
which students meet a scholarship's requirements, the catalog of
requirements, how students' answers and files are keyed and gathered, the
scholarship export, the rules of the forms, the loaner records and the
season's dates.

- `src/` is the verified library. Each public function states what it
  returns in its `ensures`; `src/laws.rs` holds the properties that relate
  several functions.
- `tests/` runs the library on concrete values.
- `app/` is the server around the library: the requests to the tables, the
  bucket and the key service, which the library cannot make.
