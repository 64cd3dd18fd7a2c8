# archivehost

Downloads pages captured by the Wayback Machine, keeps them on disk with a
record of each capture, and serves them again as a local web site.

- `src/` is the library, written in Verus and proved: Wayback timestamps,
  CDX responses and the choice of the latest capture of each page, the path a
  page is saved under, the rules of the download queue, the serving of saved
  files (link rewriting, redirects, paging), the decoding of saved pages in
  their guessed encoding, and the configuration with its command-line
  overrides. Calls into chrono, url, urlencoding, mime_guess, chardetng and
  encoding_rs stand behind small trusted wrappers whose contracts are
  documented above each of them.
- `tests/` runs the library on concrete values.
- `app/` is the program around it: the command line, HTTP requests to the
  Wayback Machine, the SQLite database, the download workers, and the web
  and GraphQL server.
