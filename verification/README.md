# lunar_calendar

A terminal Chinese perpetual calendar (中华万年历). The library in `src/` is verified with Verus:

- `date`: dates of the proleptic Gregorian calendar (years -9999 to 9999), their day numbers and
  weekdays, on top of the `time` crate.
- `calendar`: the keys of the calendar view and how they move the selected date (by day, week,
  month and year); a date within 1900 to 2100 never leaves those years.
- `lunnar`: the lunar reading of a date (through `chinese-lunisolar-calendar`), and the 24 solar
  terms, reckoned in fixed point (ten-thousandths of a day).
- `month`: the grid of a month (weeks of seven cells, Sunday first) and what each day cell shows.

`app/` holds the terminal program (`ratatui`, `crossterm`), which draws the view and feeds keys
to the library. `tests/` runs the library on concrete dates.
