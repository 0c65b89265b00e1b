# club_bot

A Telegram bot for reading clubs. A club creates an event (`/event`),
members suggest subjects (`/suggest`), one suggestion is picked at random
(`/pick`), and an insights service collects impressions around the event
(`/startclub`, `/achieve`).

- `src/` is the library, verified with Verus: the MarkdownV2 escaping of
  user text (`markdown`), event dates and how they are shown (`dates`), the
  rules of every command (`service`), the plain-text answers (`commands`),
  the errors (`errors`) and the requests exchanged with storage and the
  insights service (`models`).
- `app/` is the program around it: the Telegram dispatcher (teloxide), the
  Postgres repository and the HTTP client of the insights service. It runs
  each command by calling the library for every decision and answer.
- `tests/` exercises the library on concrete values.
