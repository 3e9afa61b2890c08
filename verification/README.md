# ZeroLinux Cleaner

A cleaner and updater for Arch Linux with a window: quick and full clean, system update, one-click
maintenance, disk analysis, a timer, and a dashboard of system statistics.

* `src/` is the library: what is run and in which order, which paths may be removed, what is logged
  and shown, and how readings become statistics. Every function there has a contract, and the laws
  that span several functions are public proof functions.
* `app/` is the program around it: the window, threads, processes, files and system readings. It
  carries out what the library asks for and hands back what happened.
* `tests/` runs the library on concrete values.

Operations are state machines. `Session::begin` starts one, `request` says what it waits for, and
`resume` takes the answer. Sweeps over directories, streamed commands, the search for an AUR helper
and the way to root privileges work alike.

Window support comes from one of slint's backend features, which `Cargo.toml` leaves to choose.
