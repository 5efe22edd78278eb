# sora

The core of a WhatsApp bot, written in Verus and proved against its contracts.

- `src/` is the verified library:
  - `text` – whitespace, trimming, splitting, joining and decimal numerals over the
    characters of a text;
  - `config` – the bot's modes and configuration, and how setting texts are read;
  - `store` – the concurrent maps (`dashmap`) the state keeps, and what each operation
    does to what they hold;
  - `state` – the live state: settings, cache, and each chat's disappearing-message
    timer with its least-recently-touched sweep;
  - `handler` – which messages are commands, who may run them, which are marked read;
  - `commands` – what the commands decide (`set`, `hidetag`, `rvo`, `listblock`,
    `demote`) and how a reply is framed;
  - `logger` – how texts are shortened for the log;
  - `laws` – what holds across operations.
- `app/` is the program around it: configuration files, the chat connection, the event
  loop and the terminal.
- `tests/` runs the library on concrete values.
