# william

A personal-finance Telegram bot that reads receipt photos, stores their
items by category and reports on the spending. This crate is the bot's
verified core, written in Verus; `app/` holds the bot around it.

## Layout

- `src/text.rs` — integers as `{}` and `{:0w}` print them and as
  `str::parse` reads them back; trimming, case, prefixes.
- `src/category.rs` — the fifteen spending categories, their stored names,
  emoji and labels, and how a user's text is matched to a category.
- `src/calendar.rs` — month names, month arithmetic, leap years, the month
  ranges of the database queries, the clock and stored timestamps.
- `src/ordering.rs` — how stored timestamps compare as text; proofs that a
  month's range holds exactly the receipts of that month.
- `src/arguments.rs` — the arguments of `/month` and `/category`.
- `src/dialogue.rs` — the conversation state machine: which message is
  handled how, and the state that follows.
- `src/photo.rs` — what is sent to the recognition service and what is
  stored with a receipt.
- `src/reports.rs` — the text of every reply.
- `app/` — the Telegram dispatcher, the SQLite queries, the recognition
  request and the formatting of amounts of money (`f64`).
- `tests/` — tests of the library on concrete values.
