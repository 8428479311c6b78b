# zappy

A Wi-Fi connected zap counter for two ESP32-C6 boards: a development kit with a WS2812 colour LED
and a Xiao with a plain, active-low LED. A contact that closes is a zap. The LED blinks yellow for
five seconds, and the zap is reported to Home Assistant over MQTT or to ThingsBoard over HTTP.

`src/` holds the decisions, verified with Verus: what the LED shows, what is published and posted,
how the connections are kept, how colours become pulses, how the secrets file is read. `app/` holds
the programs around it: an asynchronous firmware on the bare chip, a threaded one on ESP-IDF, and
the build step that hands the secrets on to cargo.

## MQTT

| Topic | Published | Payload |
|-------|-----------|---------|
| `zappy/boot` | once on connect | `1` |
| `zappy/zap` | `0` on connect, then on each zap | zaps of this connection, in decimal |
| `homeassistant/sensor/zappy/zap/config` | once on connect | announces the zap count |
| `homeassistant/sensor/zappy/boot/config` | once on connect | announces the boot sensor |

All messages are retained. The zap count starts at `0` on each connection and rises with the zaps.
A connection counts the zaps after those that were sent before it, so a report that failed is not
made up for. As long as the zero that opens each connection arrives, the growth of the counter,
read as one that may restart at zero, is the number of zaps since boot that was last sent, less
the zaps of the reports that failed (`session::connections_add_up`). Over several boots the growth is
the sum (`session::all_boots_add_up`).

The client id is `zappy`. For a broker that serves several devices the library can also make an id
per device (`request::ClientIdentity::PerDevice`); the programs here do not use it.

## Layout of `src/`

| Module | What it decides |
|--------|-----------------|
| `led`, `blink` | colours and brightness; the LED of the asynchronous firmware |
| `state` | what the threads of the threaded firmware share: zaps, blinking, waiting for Wi-Fi |
| `wifi`, `zap` | keeping Wi-Fi up; counting zaps |
| `protocol`, `request`, `mqtt`, `session` | MQTT fields, the connect request, the messages, the connection |
| `thingsboard` | telemetry messages |
| `ws2812` | colours as pulses |
| `secrets`, `text` | the secrets file; numerals and other text |
| `clock` | time in ticks |
