# twitchcat

Keep up with the chat of your favourite Twitch channels from a terminal.

- `src/` is the verified library (Verus):
  - `color`: RGB colours, the `#RRGGBB` notation, the palette for channels
    without a colour, and the call into twitchchat's colour parser;
  - `text`: decimal numbers and 24-bit ANSI colouring;
  - `bot`: the watched channel list, chat-line rendering, the reaction to each
    chat event, reading channel lists and credentials from environment values;
  - `login`: the login built with twitchchat's `UserConfig` builder;
  - `config`: the configuration's settings and defaults;
  - `controller`: the command prompt as a step function from typed lines to
    actions;
  - `comms`: the string channels between prompt and bot.
- `app/` is the program: it reads the terminal, the environment and the
  configuration file, runs the chat connection, and performs the actions the
  library decides on.
- `tests/` runs the library on concrete values.

Run with `TWITCH_NAME`, `TWITCH_TOKEN` and `TWITCH_CHANNEL` set; type
`help` at the prompt.
