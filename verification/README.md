# cslt

A client for the course-selection site of NTUST, written in Verus.

- `src/` is the verified library: the settings of the client and the
  addresses a course selection goes to (`client`), the login cookie and its
  header value (`login`, `blocking::login`), the reading of the details page
  and of the page that answers a selection (`page`), the cleaning of texts cut
  out of a page (`text`), and the syntax of the credits column (`number`).
  The calls into `scraper` and `regex` stand in `html`, behind trusted
  wrappers whose results are named by uninterpreted spec functions.
- `app/` holds the network side: the `reqwest` clients, the cookie store, the
  async and blocking login methods, and the course record with its credits
  read as an `f32`.
- `tests/` runs the library against the real outside crates.
