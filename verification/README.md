# rpsump

Decision logic for a Raspberry Pi appliance controller: a sump pump driven by
two water level sensors, a pool pump with four speed inputs, a pool heater, an
irrigation pump with four hose valves, and rain-aware garden watering
schedules. The library is written in Verus; each public function carries a
contract over mathematical models, and the properties the controller relies on
are stated and proved as lemmas.

## Layout

- `src/calendar.rs` – dates, times of day and instants as integers; weekdays,
  parsing and time spans come from chrono behind small trusted wrappers.
- `src/text.rs` – trimming, comma separated fields, decimal digits, text order.
- `src/sort.rs` – a verified stable sort and its ordering lemma.
- `src/clock.rs` – the system clock and spans of seconds and nanoseconds.
- `src/repository/` – the stored records and the decisions taken inside the
  repository's transactions: which garden events are due, how tokens are
  judged, which runs a stop cancels.
- `src/hydro/` – the sump listener, debouncing, the pool pump's speed
  changes, the heater, garden runs and the next scheduled run, irrigation
  plans, and the skip-for-rain decision.
- `src/sump/` – the sump board's sensor state, pump changes, and which of its
  irrigation schedules to start.
- `tests/` – tests of the library on concrete values.
- `app/` – the program around the library: the clock, the weather service,
  the schedule file, standard input and the in-memory pins.
