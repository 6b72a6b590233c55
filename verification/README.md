# maestro

Maestro describes a Linux work session as a JSON profile (applications,
browser URLs, cleanup rules), captures what is already running into a draft
profile, and launches a profile in one go.

- `src/` is the verified library: profile validation and path rules,
  settings, the activation plan and run, browser command lines, the
  capture assistant (desktop-entry index, window/workspace index, process
  classification, editor folder hints), and context cleanup. A function
  that computes from its arguments states its result exactly. A function
  that asks the disk or the environment (whether a file exists, where the
  configuration directory is) states what holds whatever the answer is;
  next to it, a function taking those answers as arguments (such as
  `executable_on_path_given` or `spawn_argv_for`) states the exact result
  for each of them. Laws relating several functions are public proof
  functions next to them.
- `app/` is the program around it: processes, environment, files,
  `wmctrl` and the Wayland snapshot, spawning, clipboard, and the JSON
  command interface.
- `tests/` exercises the library on concrete values.
