# mupc_pages

Display logic of three pages of the local console panel — interlock,
audit log, device and peripherals — written in Verus and verified: what each
page shows for a frame, which operations it allows, how it words backend
answers, and the text rules of a panel font that draws only a small set of
ASCII characters.

Layout:

- `src/text.rs` — glyph-safe rewriting of free text, full-width punctuation
  folding, trimming, clipping by character count, decimal numbers.
- `src/clock.rs` — UTC calendar arithmetic and the `YYYY/MM/DD HH:MM:SS`
  rendering; minutes of the range pickers to epoch milliseconds.
- `src/palette.rs` — the named colours, chip skins and "cannot be known"
  placeholders.
- `src/interlock.rs` — the interlock page: state view, lamps, trigger
  sources, button availability, rejection texts, confirmation details,
  fire level slots, the detector summary counts, drill-down table geometry.
- `src/fire.rs` — the fire groups of the interlock page: section notice,
  status bit slots, trigger rows, the summary line, the drill-down pager.
- `src/reasons.rs` — the in-place reason band of the interlock page and the
  events that change it (rejections, failures, successes, the hold
  countdown); the confirmation dialog and toast lifecycle; the page state
  before any frame.
- `src/audit.rs` — the audit page: list state, row order, value-pair
  summaries, failure reasons, the operation filter and the queries it sends,
  the list area's visibility, the row grid.
- `src/system.rs` — the device page: row model, card layout of a segment,
  placement of a row on a pooled row, station clock columns, the battery
  alarm card, device card values ("not provided") and the service address.
- `src/segment.rs` — the rows of a peripheral segment (groups in order,
  points by block and address, notices), a point's row, and the window of
  pooled rows and card frames at a scroll offset.
- `app/` — conversion of JSON values and float readings into the library's
  plain values.
