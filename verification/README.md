# Queue-aware SMDP collector

A collector for calibrating a market-making strategy. It records the public
market, the private account and the local system, and it can run a controlled
probe: one small Hyperliquid order at a time, whose whole lifecycle is written
down.

What the collector decides is a verified library; what is left is the program that
carries the decisions out.

## The library, `src/`

- `natural`, `rounding`, `binary64`, `arithmetic`, `ordering`, `decimal`,
  `notation`, `constants`: double precision numbers by their bit patterns, with
  correctly rounded arithmetic, reading and writing.
- `text`, `json`: texts and decoded JSON documents.
- `arch/schema`, `arch/records`, `arch/vocabulary`: what the records hold.
- `arch/storage`: names of the files, rotation, and the recovery of files that
  were left behind.
- `arch/signing`, `arch/action_gateway`: orders and cancellations, their
  numbering, and the answers of the exchange.
- `arch/execution_probe_module`: the state of the market, of the account and of
  the probe; its configuration; and each step of its lifecycle.

A step of the probe is a function on the state of the module. It reads the clocks
and the room of the store as arguments, changes the state, and gives back the
commands that are to be carried out next (`commands`). An agenda keeps them in order.

Proof functions whose names begin with `law_` state what holds of the library as a
whole.

## The program, `app/`

`main` reads the configuration, connects the venues and runs the probe. It carries
out commands, sends signed actions, asks for snapshots of the account, writes the
records and compresses closed files.

    queue_aware_smdp --config strategy_config.toml

Live orders have three gates: `probe.enabled = true`,
`probe.i_understand_live_orders = true` and `QUEUE_AWARE_SMDP_ALLOW_LIVE=1`. With
`probe.enabled = false` everything is collected and nothing is sent.

## Tests, `tests/`

Scenarios on concrete values for every part of the library.
