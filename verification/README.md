# knx_home

A home automation service for a KNX installation: it listens to the KNX/IP
multicast group for sensor telegrams, keeps the latest measurement of each
sensor, serves a web interface from which actors and switches are commanded,
and runs a time schedule whose events count from midnight UTC (shown as
local time of day) or from the sun's position.

`src/` is the library, verified with Verus:

- `text`: character-level helpers (decimal numerals, searching, trimming).
- `table`: string-keyed tables in insertion order, each key at most once.
- `config`: the configuration, group addresses and sensor dimensions.
- `data`: measured values and the store of the latest measurements.
- `knx`: group address texts, commands, the telegrams sent to actors, the
  decoding of received telegrams and their handling.
- `httpserver`, `html`: routes, command requests, responses and page data.
- `scheduler`: reading schedule events into entries, choosing the next one,
  and the telegram it sends.
- `sensors`, `youless`: weather readings and the power monitor page.

`app/` runs the service: sockets, files, SQLite, HTTP, templates, the clock
and the solar computations.
