# Weekly Usage Bar

An adaptive weekly quota planner with a compact title-bar overlay, verified with Verus.

The weekly rate-limit window is divided into seven equal slots that are anchored to the
weekly reset. Each slot gets a budget; the overlay shows how much of the week and how much
of today's budget is left.

- `src/` is the verified library.
  - `percent`: exact shares of the quota, counted in ticks of 1/420 percent, and budgets as
    even parts of them.
  - `planner`, `planner_laws`, `runtime`: the budgets, what holds of them over time, and the
    state between readings.
  - `calendar`, `labels`: local dates and clock times, and the labels beside the bars.
  - `model`, `locale`, `settings`, `worker`: readings, languages, files and the status line
    of a background worker.
  - `overlay`, `bars`, `quota_bar`, `color`: where the overlay sits, how it answers, and what
    is painted in it.
  - `text`: trimming, numerals and UTF-16.
- `tests/` runs the library.
- `app/` is the Windows program around it: the window, the painting and the files.

## What is taken on trust

The library calls `chrono` for calendar fields, the short date, the local offset and the
current time, and the standard library for the clock, `String::push` and `char::from_u32`.
What their contracts claim is said above each of them.
