# slovowiki

The verified core of the Slovowiki static-site renderer: how generated,
official-only and raw-attestation pages are numbered and cross-referenced,
how they link to each other (word chips, aspect partners, the semantic
graph), how the English lookup API and the search index rows are keyed and built,
how the index pages group the entries, the grammar checks of the
inflection validation, and the HTML and JSON each page is made of.

- `src/` is the library, written and proved with Verus. Each public
  function states in its contract what it returns; properties that span
  several calls stand as proof functions (in `src/laws.rs`,
  `src/page_laws.rs`, and next to the functions they are about).
- `tests/` runs the library on concrete inputs.
- `app/` is the unverified edge: writing the API, category and index
  files, serde, the build stamp, the pages that print or rank
  floating-point scores, and the calls into the `interslavic` crate (the
  adjective paradigm and the forms the inflection checks read).

The drivers that read the dictionary dumps, run the generator and write a
whole site are not part of this crate: they rest on parts of the program
(the corpus reader, the generator, the enrichment and calibration data)
that the library takes as inputs. Spelling folds (standard alphabet, ASCII
skeleton) and language names likewise come from the orthography and
language tables of the surrounding program.
