# ttop

A terminal system monitor: CPU utilization and temperature, memory, DIMM
and GPU panels drawn as coloured sparkline charts in boxed sections, with
a one-minute rolling history.

The project is written in Verus. Everything that decides what is shown
lives in the verified library under `src/`:

- `cpu/`, `memory/`, `disk/`, `gpu.rs`, `gpu/` parse the kernel's text
  files (`/proc/stat`, `/proc/meminfo`, `/proc/diskstats`, `/proc/mounts`,
  hwmon and DRM entries, `nvidia-smi` output) and pick the sensors,
  devices and mounts to watch;
- `history.rs` keeps the rolling histories as wide as the charts;
- `ui/` lays out and renders the screen: the column split, the chart
  widths, every row, and the whole frame, with proofs of how many lines a
  frame takes, how wide each line is once the columns have room, and that
  the GPU section shows exactly when a GPU was found;
- `control.rs` maps key presses to actions and the terminal size to chart
  widths.

`app/` is the program around it: terminal setup, the refresh loop, reading
files and running `nvidia-smi`, and the float arithmetic that turns counters
into percentages, rates and chart glyphs.

The tests under `tests/` exercise the library on concrete inputs.
