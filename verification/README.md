# kashshaf

The verified core of a search application over a corpus of classical
Arabic books, written in Verus.

- `src/` is the library. Every function in it is verified against its
  contract; the few calls into std and serde_json whose behaviour
  is taken on trust are marked `#[verifier::external_body]` and say in
  their doc comments what they claim.
  - `text`: characters of strings, decimal rendering, substring search.
  - `normalize`: folding of Arabic text for matching, with its laws
    (idempotent, never longer, canonical output).
  - `authors`: author search by normalized, lower-cased name.
  - `books`: book records and the catalogue's SQL statements, with the
    law that the filtered listing's parameter slots are `?1..?n`, one per
    bound value.
  - `collections`, `history`: stored records, their JSON encoding (book
    ids read back as written) and the errors reported on writes.
  - `api`: page window and the `book_ids` request parameter.
  - `announcements`, `state`, `search`, `error`.
- `tests/` runs the library on concrete values.
- `app/` is the program around it: the HTTP API and the desktop
  commands over SQLite, which hand plain values to the library.

The system clock is read in `app/`; the library takes the time of a
change as an argument.
