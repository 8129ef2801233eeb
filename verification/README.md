# latex_telegram_bot

A Telegram bot that watches Polymarket sports markets: on the command
"fetch games" it gathers the upcoming games of a set of tags, looks up the best
asks of their moneyline markets, prints them and saves them as JSON; it can also
stream live prices of one game. It also carries a LaTeX report renderer and a
document sender for Telegram.

- `src/` is the verified library (Verus): the selection of games, the grouping of
  markets, the summaries and their text, the request URLs, the reading of
  Telegram updates and replies, the decisions of the price monitor, the course
  of a LaTeX render, and the decimal and date-time texts the bot reads and writes.
- `app/` is the program around it: HTTP, WebSocket, files, processes, the clock,
  and the floating-point price arithmetic of the monitor.
- `tests/` exercises the library on concrete values.
