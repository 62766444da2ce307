# x11idle

An X11 idle daemon: it tracks idle time through XScreenSaver, reacts to
systemd-logind sleep, lock and unlock signals, serves the
`org.freedesktop.ScreenSaver` inhibit API, and runs configured commands on
idle timeouts and on the user's return.

- `src/` is the verified library: the idle scheduler (`idle`), the daemon's
  step function from event or idle sample to actions (`daemon`), events and
  their commands (`events`), the screensaver cookie registry
  (`screensaver`), the input monitor's decisions (`input`), command-line parsing (`cli`), configuration values and
  file locations (`config`), errors (`error`) and character facts (`text`).
- `app/` is the program around it: X11 and D-Bus I/O, the tokio event loop
  that performs the library's actions, process spawning, logging and the
  TOML configuration file.
- `tests/` runs the library on concrete inputs.
