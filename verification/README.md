# see

A terminal viewer for the systemd journal, with its decisions verified by Verus.

`src/` is the verified library:

- `workspace`: the whole screen — the service list, the service search box and one
  log buffer per opened unit — and what each key does to it.
- `see_tui`: the log widget of the *first layout* (a list with a filter box and two
  plain date boxes). Which entries it lists is `scan::listing_entry_verdict`, decided
  entry by entry; `scan::list_entries` states the whole listing of a sequence of
  entries at once. The program runs the entry-by-entry form, so that a read can be
  cancelled between two entries.
- `tui`: the log widget of the *second layout* (a filter box, two date boxes that
  type their own separators, vi-like counts, a pop-up with the fields of an entry),
  and `scan::read_batch`, one pass of the streaming reader behind it; `reader` holds
  the lines handed from that reader to the widget.
- `date_input`: the `mm/dd/yyyy hh:mm:ss` boxes; `human_time`: reading such a time.
- `line_format`: how a line of the log list is made; `scan`: which entries are shown.
- `journal`, `log_level`: journal entries and their priorities, ordered by time.
- `text`, `number`, `keys`, `list_nav`: small helpers.

The laws of the library are public proof functions next to the code they are about
(names starting with `lemma_`).

`app/` is the program around it: terminal drawing (ratatui), key events (crossterm),
journal access (journald, systemd), the clipboard and the background tasks.
