# collect_tui

A terminal client for browsing lecture slides and downloading them, with
its logic verified by Verus.

- `src/` is the verified library: catalogue keys and key sets, the cached
  lists of lectures and pages, the three-column selector with its cascading
  check marks, the download queue, the login and settings forms, the footer
  hints, file naming for saved slides, and the application state machine
  (`app.rs`) that turns each event into the next state and the commands to
  carry out.
- `app/` is the program around it: argument handling, the configuration
  file, the terminal event loop and drawing, the calls to the lecture
  service and the downloads.
- `tests/` runs the library on concrete values.
