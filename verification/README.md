# koharu

The decisions behind the start-up of a desktop program, written in Rust and proved with Verus.

- `src/` is the library. Every function states what it returns; step machines name the work to be
  done next, and the laws beside them say what any course of events can lead to.
- `tests/` runs the library on concrete values.
- `app/` is the program around it: windows, files, processes, models. It does the work that the
  machines name and hands back what came of it.

| Module | What it decides |
| --- | --- |
| `launch` | what a run does, from its arguments to its end |
| `initialize` | what is set up first, and in which order |
| `setup` | what happens behind the splash screen |
| `resources`, `device` | the device, and the parts that are built for it |
| `cuda_probe`, `cudnn` | the trial of CUDA, and the cuDNN runtime |
| `rolling_log` | the log file and its two backups |
| `move_dir`, `move_laws` | moving a directory without losing a file |
| `cache_migration`, `cleanup` | the old model cache, and stale files |
| `crash` | what a panic writes and shows |
| `paths`, `addons` | paths as people read them, project roots, language packs |
| `course`, `text`, `json`, `clock` | what the others are stated in |

`text`, `json`, `clock` and `device` hold the few declarations that are taken on trust: one method
of `String`, one of `str`, and the calls into `serde_json` and `chrono`.
