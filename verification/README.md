# ctrader_bot

A trading bot for the cTrader Open API whose logic is proved with Verus.

`src/` is the library. It holds no sockets and reads no clock but through one
function, `now_unix_ms`, of whose result nothing is claimed; every other
function states in `ensures` what it returns or changes.

- `connection` turns message bodies into frames on the wire and back.
- `auth` signs in: application, account, and one renewal of an expired token.
  It also writes the new tokens into an environment file.
- `bot_loop` is the start-up and the main loop as steps from an event to what
  is to be sent and pushed; `bot_laws` states what holds over several of them.
- `state`, `records`, `symbols` are what the bot knows; `misses` tells which
  symbols are looked up and found without a name for the first time.
- `routes` and `dto` are the answers of the HTTP API.
- `ws` and `log_layer` are what watching clients get.
- `config`, `text`, `named`, `units`, `proto` are what the rest is built on.

Numbers are kept as the broker sends them: volumes in hundredths, spot prices
in hundred-thousandths, money as an integer with a number of digits, and other
prices as the bits of a double.

`app/` is the program: TLS, the binary form of the broker's messages, JSON, the
HTTP server, and the conversion of numbers to floating point.
