# hackernews_tim

A terminal client for Hacker News. The program's logic is a library written
in Verus: each function states in `requires`/`ensures` what it does, and
Verus proves it.

## Layout

- `src/` — the verified library:
  - `text`, `styled`, `theme`, `markup`, `scan`, `html`: characters, styled
    text, colors and the parsing of Hacker News' HTML text;
  - `model`, `items`, `responses`, `requests`: stories, comments, the
    replies of the Hacker News APIs and the URLs of the requests;
  - `hn_page`, `vote_page`, `hn_forms`, `profile`: reading the site's pages
    (comments, votes and vouches, login and reply forms, the user profile);
  - `article`, `article_view`: reader-mode articles and their view;
  - `story_view`, `comment_view`, `comment_keys`, `bars`, `dialogs`,
    `find`, `links`: the views, their key handlers and what each key asks
    of the program;
  - `keys`, `keymap`, `config`, `query`, `reply`, `utils`: key bindings,
    configuration, search filters, the reply editor's scratch file and
    small helpers.
  Calls into outside crates stand behind small trusted wrappers whose
  contracts say what the crate's source shows.
- `tests/` — tests of the library on concrete values.
- `app/` — the program around the library: command line, files, HTTP
  requests, the terminal interface and the editor hand-off.
