# calibrate

GPU training efficiency analysis, as a library whose logic is verified with Verus,
and a command-line program around it.

- `calibrate watch` attaches to a training process and shows its model FLOPs
  utilization (MFU), where step time goes, the bottleneck and one recommendation.
- `calibrate probe` prints raw samples as JSON.
- `calibrate bench` measures a model across inference runtimes.
- `calibrate plan` estimates the memory that a fine-tuning run needs and compares GPU
  prices.
- `calibrate diagnose` checks what the system supports.

## Layout

- `src/` is the library. Its functions have contracts that Verus checks.
  - `collectors`, `process`, `gpu_specs`: what is read of processes and devices.
  - `metrics`, `analysis`, `session`: the sample window, utilization, the bottleneck,
    and the monitoring session as a machine that takes samples.
  - `bench`: the benchmark run as a machine of actions and events, its statistics, the
    runtimes and the comparison of reports.
  - `plan`: model resolution, memory and training work, prices and their ranking.
  - `commands`, `output`: what the commands decide and what they show.
  - `text`, `float`: texts, and floating-point numbers as bit patterns that can be
    compared.
  - `histogram`, `json`, `pattern`, `time`: the calls into `hdrhistogram`, `serde_json`,
    `regex` and `chrono`, with what is relied on of each.
- `tests/` runs the library.
- `app/` is the program: arguments, files, processes, NVML, HTTP, the terminal, and
  floating-point arithmetic.

## Numbers

The library holds latencies in microseconds, memory in bytes or in exact fractions of
a byte, and counts in integers. A floating-point number is held as its bits and only
compared; what has to be added, multiplied or formatted is handed in as an argument.
