# dankbot

A Discord bot that reads chat messages aloud in voice channels, with a
verified core.

- `src/` is the library, verified with Verus:
  - `text` — strings as character sequences: replacement, search, splitting,
    decimal numbers;
  - `mention` — Discord mention syntax and the scanner for channel mentions;
  - `pattern` — compiled regular expressions (the `regex` crate);
  - `clean` — turning a message into speakable text;
  - `voice` — the speech URL (`percent-encoding`), `ffmpeg` arguments and
    what the speech worker does per message;
  - `guild` — per-guild state and the registry of guilds;
  - `commands` — routing of messages, commands and their effects, joining;
  - `starboard` — the embed that reposts starred messages.
- `app/` is the bot itself: gateway events, voice connections and audio,
  which call the library for every decision.
- `tests/` runs the library on concrete values.
