# ruvector_kalshi

A client library for the Kalshi exchange, verified with Verus.

The library does no input or output. It turns calls into prepared requests, JSON values into
records, pages into whole lists, and a strategy's intents into orders. Every function states in its
contract what it returns for every input it takes, and the laws that hold across functions stand as public
proof functions named `law_*` beside the functions they speak of.

| module             | what it holds                                                       |
|--------------------|---------------------------------------------------------------------|
| `text`             | characters: trimming, cutting, decimal numerals                     |
| `fixed_point`      | dollar prices and contract counts as strings, and back              |
| `json`             | JSON values, and finding the fields of a record in one              |
| `decode`, `encode` | the rules for reading and writing fields and records                |
| `market`, `orders`, `portfolio`, `ws` | the records of the wire                          |
| `models`           | all records under one path                                          |
| `strategy_adapter` | intents on YES and NO as orders on the YES book                     |
| `walk`             | reading a list page by page, refused where it may be cut short      |
| `rest`             | requests: URL, signed path, body; their answers; the live flag      |
| `error`            | what can go wrong                                                   |

One call is taken on trust: `rest` asks `reqwest::Url` for the path of the base URL.

`app/` holds what the network needs: sending, signing, pacing, and JSON text.
