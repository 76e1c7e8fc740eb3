# deepsight

The logic of a desktop tool that trains and tests small image classifiers:
validating the classes a user submits, sanitizing class and file names,
staging the training dataset, reading the output of the training and inference
scripts, and the session state that decides when a training or a test
inference may run. Everything under `src/` is verified with Verus.

- `src/text.rs` - trimming, line splitting, joining, decimal rendering.
- `src/paths.rs` - file names, extensions, the accepted image formats.
- `src/sanitize.rs` - file-name and class-name sanitization.
- `src/training.rs` - class validation, the class-name argument, training results, script output lines.
- `src/session.rs` - the training session and its laws.
- `src/json.rs` - reading a string member of a JSON line.
- `src/inference.rs` - reading the inference script's output.
- `src/search.rs` - the ordered folders where the scripts are looked for.
- `src/dataset.rs` - the layout of the temporary dataset; cleanup folder names.
- `src/system_info.rs` - the machine summary and the Python probe.
- `app/` - the desktop program: commands, processes, files and events.
