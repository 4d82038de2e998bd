# suntrack

The verified core of Suntrack, a lightweight desktop time tracker: a background
thread samples the foreground window every second, credits the elapsed time to
the (app, window title) in use, and persists it per day and per session; a
dashboard shows each day's apps, a calendar heatmap, and a mini-HUD.

`src/` is the library, written and proved with Verus:

- `usage` — the live usage map and its per-app totals;
- `tracker` — what one sampling tick decides: time carried between ticks, the
  split of a tick across midnight, the day rollover, pause and periodic flushes,
  session switches;
- `state` — activity keys, usage rows and their display order, the shared state;
- `dates` — calendar days, stepping, weekdays and storage keys (via chrono);
- `dashboard` — duration text, app colours, heat bands, day summaries, the HUD
  figures and the calendar grid;
- `sessions`, `view_state` — session choices and the dashboard's navigation;
- `config`, `paths`, `text` — settings, file locations, text helpers.

`app/` is the program around it: the eframe GUI, SQLite storage, the config
file, window and idle sampling. `tests/` exercise the library on concrete values.
