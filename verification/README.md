# aurek

A security check for AUR packages, run before yay installs them.

- `src/` is the library, verified with Verus: reading settings, the command
  line, the pattern rules over a PKGBUILD, the request to a local language
  model and the reading of its answer, the report, and the yay command lines.
- `app/` is the program around it: clap, network access to the AUR and to the
  llama.cpp server, temporary files, terminal output and running yay.
- `tests/` runs the library on concrete inputs.
