# acterminal

An order-flow terminal for CME FX futures (6E, 6B, 6A, 6N, 6L, 6J, 6C, 6S,
6M). The market-data core is a library verified with Verus; a small program
around it reads the feed, does the floating-point price arithmetic and prints
the views.

## Library (`src/`)

| module | what it holds |
|---|---|
| `tick` | trade-side classification of tick packets (uptick/downtick, pending sides, first trade against the quotes) |
| `side` | trade sides, their labels and their inversion |
| `symbols` | futures codes, display names, the symbol selector list, the symbol manager |
| `feed` | data types, subscription keys, transport-topic routing |
| `subscriptions` | the subscription table, the plan that brings live subscriptions in line with requested ones, symbol changes |
| `transformer` | inversion rules per symbol: decimals, ladder tick sizes, DOM side swap and ordering, quote field routing |
| `ladder` | the DOM ladder: one row per priced level, best bid and best ask |
| `tape` | bounded newest-first trade tapes |
| `row_style` | how a trade row is coloured |
| `viewport` | scrolling, zooming and dragging of the candle chart window |
| `process_table` | sort order and row limit of the process table |
| `format`, `parse` | time labels, byte counts, integer and timestamp parsing |
| `state`, `chart`, `sorting`, `text`, `simulator` | market-data state, chart enums, stable sort, string helpers, the simulator's price walk |

Contracts are stated over spec functions; laws that relate several operations
are public proof functions (`lemma_*`).

## Program (`app/`)

`acterminal [DISPLAY_NAME]` reads `<topic> <json>` lines on standard input
and prints the quote strip, the DOM ladder and Times & Sales of the selected
symbol; `acterminal simulate` writes simulated 6E data in that format;
`acterminal processes` prints the process table.
