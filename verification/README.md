# bookshelf

A home book collection, verified with Verus.

The library (`src/`) holds the logic:

- `parser` reads a book from the Bookvoed shop: the search page gives the
  title and page address, the book page gives the cover address and the
  characteristics table (`metadata` builds that table from its rows).
- `web_url` rewrites a cover address to ask for a 300 by 400 picture.
- `covers` decodes covers given as data URLs, names cover files and decides
  where a new cover comes from.
- `queries` builds the SQL statements that list, search and filter the books.
- `text` holds the string operations the others use (trimming, collapsing
  white space, decimal numbers).
- `html` wraps the `scraper` crate; `laws` states and proves the properties
  that hold across these functions.

Calls into `scraper`, `url` and `base64` stand behind small trusted functions
whose contracts name their results.

`app/` is the desktop application around the library: Tauri commands, the
SQLite store, HTTP downloads and the files on disk.
