# botejao

Telegram bots that publish the menus of university restaurants.

- The channel bot fetches UNICAMP's menus for the coming days from the restaurant's JSON
  service every hour, groups the meals by day, earliest first, and posts them as one HTML
  message to a channel whenever they change.
- The chat bot answers private messages, posts the day's UNICAMP menu read from the
  restaurant's web page to a channel once a day, and has a handler that reads USP's menus
  from their pages.

## Layout

- `src/` is the library, verified with Verus: grouping meals into days
  (`unicamp_menu`), writing the channel's messages (`formatting`), deciding when a fetched
  menu is posted (`menu_updates`), and the chat bot's logic (`bot`): the answers to
  messages, reading the menu page, the record of the last day posted, the word-by-word
  comparison of menus, and USP's repliers and page polling. The contracts state what each
  function returns or changes; the proof functions named `law_*` state properties that hold
  across calls.
- `app/` runs the bots: HTTP requests, JSON decoding, Telegram, files, threads (with the
  locks that share USP's repliers) and the browser session, calling the library for every
  decision and text.
- `tests/` exercises the library on concrete values.
