# tg_collector

A collector of Telegram channels, chat histories and files, built on TDLib.

- `src/` is the verified core (Verus): the bounded download queue and its
  laws (`download_queue`), the decisions of the client on downloads, file
  news, channel lookups and the walk back through a chat's history
  (`tg_client`), the answers to the authorization states (`auth`), the
  configuration, the error type, the channel record and the `Debug`-style
  rendering of the queue's state (`text`).
- `app/` is the client around it: TDLib through `telegram-client` and
  `rtdlib`, tokio channels and tasks, the condition variable that waits for
  authorization, logging and the conversions between TDLib's values and
  the core's.
- `tests/` runs the core on concrete values.
