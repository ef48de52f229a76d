# ActWeave

A verified core for task orchestration: a model or a person decides which skills to use, a run
executes the decisions step by step, and an adapter connects to the application. Everything that
decides is in `src/`, with contracts that Verus proves. Everything that reads, waits, draws or
sends is in `app/`.

## How it fits together

- `kernel`, `execution`, `batch`, `failure_guard`: plans, ordered executions, repetitions and the
  limits on repeated failures.
- `run`, `run_model`, `run_laws`: a run of a task. The host asks `Run::request` what the run waits
  for, performs it and hands back what came of it. `run_model` says what every reply does, and
  `run_laws` what holds of every run: when it ends, what it keeps, what it never executes.
- `task_runtime`, `metrics`, `wire`: the handle that controls a task, its counts and its journal.
- `jev`, `inquiry`, `manual`, `diagnostics`: what a model or a person is asked, how the answer is
  read, and what is recorded of it before anything goes on.
- `api`, `feature`, `skills`, `sdk`, `debug`: what adapters offer, and how skills are selected.
- `automation`, `recognition`, `action`, `flow`, `runner`, `flow_laws`, `flow_runtime`,
  `approach`, `vision`: local visual automation over frames and input commands.
- `demo_runtime`, `demo`, `trial`: an adapter over a program in memory. A trial of it runs a flow,
  which the host takes from step to step and which holds while the task is paused.
- `report`, `tui`, `cli`: the lines and screens of the programs in `app/`.

Time is a number of nanoseconds that the host reads from its clock; `clock` says where it ends.
Fractions and scores are kept
as the bits of floating-point numbers; the arithmetic on them is the host's.

## Running

```bash
actweave '切换到训练模式'                       # JEV decides; JEVKEY holds the key
actweave --agent manual '切换到训练模式'        # a person decides, one JSON decision on a line
actweave --feature repeat_trial --param times=3 # a local feature, without a model
actweave --tui                                  # the terminal interface
```

The events of a task are kept in `logs/tasks/<task_id>/`; `--log-dir` names another directory.

Reading texts from a screen needs a native library, so `app/ocr_engine.rs` is built only with
`--cfg ocr`.
