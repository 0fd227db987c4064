# shared_service

The verified core of a portfolio site's shared GraphQL service, written in Verus.

- `src/` is the library. Its logic is verified; the calls into `scraper`,
  `syntect` and `chrono` sit behind small trusted wrappers
  (`#[verifier::external_body]`) whose contracts state what those crates
  document, and are not proved:
  - `text`: character-level string operations (whitespace, words, lines,
    searching and replacing) specified over `Seq<char>`;
  - `read_time`: visible text of HTML and reading-time estimates;
  - `highlight`: syntax highlighting of the `<pre><code>` blocks of an HTML
    document, on top of `scraper` and `syntect`;
  - `line_highlighter`: line-by-line highlighting with `syntect` and the HTML
    rendering of highlighted lines;
  - `models`, `schemas`: the plain data of the API;
  - `resolvers`: for each GraphQL operation, the steps it performs and what it
    answers when one fails;
  - `experience`: whole years between dates, on top of `chrono`;
  - `service`: deployment environment, schema limits and CORS origins.
- `app/` is the service itself: the HTTP server, the GraphQL schema and its
  resolvers, which perform database and service calls and let the library
  decide what comes next.
- `tests/` exercises the library.
