# shopware-redis-cli-helper

A verified core for inspecting and maintaining a Shopware / Symfony Redis cache.

The library under `src/` holds the logic and is proved with Verus:

| Module        | Responsibility                                                   |
|---------------|------------------------------------------------------------------|
| `grouping`    | Namespace and type of a key, hash stripping                      |
| `stats`       | Aggregation per namespace and type                               |
| `leaderboard` | The bounded heap of the biggest keys                             |
| `scanner`     | The SCAN driver as a state machine, pipelined enrichment         |
| `report`      | Terminal-table and Markdown reports                              |
| `insights`    | Options of `insights` and what they resolve to                   |
| `inspect`     | Listing a type's keys, reading a value                           |
| `value`       | Compression detection, text and hex views                        |
| `moment`      | The clock, expiry instants, dates as text                        |
| `get`         | What `get` prints                                                |
| `cleanup`     | Plan, batches and totals of the tag cleanup                      |
| `serverinfo`  | The displayed fields of an `INFO` reply                          |
| `connection`  | Time limits and messages of a connection                         |
| `rows`        | Filtered, sorted and humanized rows of the viewer                |
| `tui`         | The viewer as a state machine                                    |
| `screens`     | Texts, colours and cursors of every screen                       |
| `binary64`    | Percentages in double precision, on integers alone               |
| `names`, `order`, `text` | Name-ordered maps, stable sorting, text primitives    |

`app/` is the program around it: command line, connections, terminal.
