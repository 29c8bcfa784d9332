# clipboard_sync

Keeps the clipboards of X11 and Wayland in step, in both directions.

The library in `src/` makes every decision and is verified with Verus; the program in `app/`
runs the clipboard tools (`xclip`, `wl-copy`, `wl-paste`, `clipnotify`), asks the system what
the library wants to know, and does as it says.

| module | what it decides |
| --- | --- |
| `text` | case folding, trimming, lines, decoding |
| `mime` | which of the offered types is carried over, and under which name |
| `uri` | the form in which lists of locations are written |
| `fingerprint` | when two contents count as the same |
| `command` | the command lines of the clipboard tools |
| `sync` | one synchronisation, step by step |
| `process` | waiting for a tool, reading, writing, trying again |
| `watch` | what is done about a change, or a listener that stops |
| `session` | tools, directories and displays at the start |

`text_laws`, `mime_laws`, `uri_laws` and `sync_laws` state and prove what holds of these
together. First of all:

- Contents that were carried over, and are read back as the same kind, are not carried back,
  whatever else is listed with them (`sync_laws::law_no_echo`). The one exception is a list
  of locations with white space before a NUL at the end of a line. It is carried back as a
  shorter list (`sync_laws::law_echo_fades`), so that the two clipboards come to rest all the
  same (`sync_laws::law_no_loop`).
- No new copy is missed (`sync_laws::law_no_copy_is_missed`).
