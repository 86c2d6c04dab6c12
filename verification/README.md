# bolt_load

Planning, scheduling and bookkeeping for a concurrent segmented downloader, written
and proved in Verus.

- `src/` is the verified library. It decides: which byte ranges are handed out and to
  whom (`planner`, `range_set`, `id`, `manager`), what a runner does with each event of
  its stream (`runner`, `runner_flush`), what is written when (`pending_writer`,
  `write_budget`, `budget`), when runners are added, split or throttled
  (`concurrency_control`, `dynamic`, `backpressure`, `strategy_control`), and how a task
  goes from its start to its end (`task_builder`, `task_machine`, `download_loop`,
  `singleton`).
- `app/` waits for events and performs what the library decides: runtimes, channels,
  files and HTTP requests.
- `tests/` runs the library together with the crates that it calls.

The contracts say what functions return and change; what a reading of the clock or a
channel's answer comes to is stated for every outcome. What holds across functions stands
beside them as public proof functions, whose documentation starts with "Law"; those on
plans are in `planner_laws`. What is believed of outside crates without proof is stated
where they are called: `bytes` in `buffer`, `ranges` in `range_set`, `bitvec` in `id`,
`async-channel` in `control_channel`, `blake3` in `simple_adapter`, and the clock and
the formatting of the standard library in `clock` and `text`.
