# cme_md_connector

A CME market-data connector with a load test. It decodes raw CME MDP 3.0 / SBE
packets into a best-bid/offer order book, runs the book through a mean-reversion
signal, gates orders through three pre-trade risk checks, and ships them to a mock
order gateway, with every stage timed and summarized (p50/p95/p99/max).

The library under `src/` is verified with Verus: functions state what they return
or change (of making and reading the clock nothing can be stated), and the laws that hold across functions are proved as public
proof functions. `app/` is the program around it: threads, the ingest ring, the
HTTP dashboard, the synthetic market, and everything in floating point.

## Layout

| Module | What it holds |
|---|---|
| `wire`, `mdp3` | little-endian fields, packet and message framing, the incremental book refresh, the encoder; `mdp3::laws` proves that decoding undoes encoding |
| `ladder`, `orderbook`, `book_laws` | price ladders, instrument books, the books of all instruments |
| `signal` | warm-up, stance and signals of the mean-reversion strategy |
| `risk` | net positions, the three checks, the latching kill-switch, accounting of fills |
| `gateway` | order ids and simulated fills |
| `timing` | the stage clock and its measured resolution |
| `metrics` | stage histograms, counters, reporter; JSON and routing for the dashboard |
| `batch`, `pipeline`, `pipeline_laws` | the hot path: decode, book, signal, risk, gateway |
| `runner`, `args`, `text`, `totals` | pacing, ring slots, the final report; the command line; decimal text; sums over instruments |

## Where floating point meets the library

The library holds no floating-point arithmetic. A tick that leaves a two-sided
quote stops with `Tick::Quoted`; the caller computes the mid, the z-score against
its thresholds, the price band and PnL, and hands back a `Valuation` of booleans
and integers. A filled order stops with `Step::Filled` and says how the fill is to
be accounted for; the caller books it and hands back whether the daily loss limit
is breached.

## What is trusted

Calls into `zerocopy` (`wire`), `arrayvec` (`ladder`, `batch`), `hdrhistogram`
(`metrics::histogram`) and `quanta` (`timing`) stand behind small functions whose
contracts are stated beside them and not proved.
