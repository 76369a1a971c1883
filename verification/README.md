# discord_activity_mvp

A Windows process watcher that combines the configured activities it finds running
into one Discord Rich Presence.

- `src/` is the verified library:
  - `config`: the configuration model, its normalization after parsing, and the
    ordered checks that accept or refuse it;
  - `resolver`: which configured activities are running, and the two summary lines;
  - `monitor`: the form in which process names are compared;
  - `tracker`: the decisions of the tracking loop (what is shown, since when, and
    when Discord is cleared, refreshed or updated), with the text fitting and the
    elapsed-time format;
  - `presence`: the presences published to Discord and their buttons;
  - `tray`: the tray menu commands and the UTF-16 text the Windows API takes;
  - `text`: trimming, joining, decimal and UTF-8 helpers.
- `app/` is the program: it reads and parses `activities.xml`, scans the process
  table, talks to the Discord client, runs the tray icon, and sleeps between looks.
- `tests/` exercises the library on concrete values.

What Discord shows while activities are detected: the first line names the first
detected activity in configuration order (`Active: …`), the second line the others
(`Also: … + …`). An activity's `image` is shown while it is the selected one, with its
name and elapsed time as hover text; the `verb` and `display-name` entries are read and
checked but not shown. Buttons come from the selected activity, else from the shared
`<button>` entries, else from the legacy `download` and `source` links.
