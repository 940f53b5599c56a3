# axysBrowser

A Linux web browser built on GTK4 and WebKitGTK.

- `src/` is the browser's logic as a library verified with Verus: address
  resolution and search, per-tab navigation history, the tabs of a window,
  bookmarks, browsing history, downloads, settings, the internal `axys://`
  pages, the bookmark bar's layout and the stylesheet.
- `app/` is the program around it: GTK widgets, WebKit views, files on disk
  and the interface language.
- `tests/` runs the library on concrete values.
