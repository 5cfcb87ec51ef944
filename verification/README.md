# sd_rust

A config-driven daemon that turns an Elgato Stream Deck MK.2 into a programmable
control surface on Linux (Wayland/KDE): launch or raise applications, play keyboard
macros, toggle mutes, drive OBS recording and the replay buffer, and graph CPU, RAM,
network and GPU load on the keys.

The library under `src/` is written in Verus: it holds what the daemon decides, and each
function is proved against its contract. The program under `app/` does the I/O around
it and what is computed in floating point.

## Layout

| Module | What it decides |
| --- | --- |
| `config` | the configuration's values, key coordinates and their validation |
| `runtime` | the key map, what each key shows, what presses, OBS and audio change, and when the backlight dims, rains, blanks and wakes |
| `main_loop` | in which order a turn sees to resume, presses, audio, OBS, uploads and the flush |
| `keys` | chords, text and the key events that macros play |
| `launch` | `.desktop` entries, command lines, running processes, window classes |
| `obs` | connection, session, actions and the capture scan of OBS |
| `audio` | the steps of the connection to the audio server, and of toggling a mute |
| `render` | tiles, and how an icon is fit to a key |
| `screensaver` | the digital rain |
| `widgets` | readings of `/proc` and `/sys`, histories and graphs |
| `device`, `backoff`, `state` | presses from the deck's reports, retry delays, live state |
| `service`, `udev`, `suspend`, `osd`, `prompt` | the smaller subcommands and listeners |
| `text`, `path` | strings and file names |

`tests/` runs the library. `app/` holds `main`, the threads, the devices, D-Bus, and
the floating point: load colors, fractions and rates, SVG scaling, and whether a capture
of OBS has dimensions.

No function of the library panics: where the library needs something of its arguments, its
`requires` says so, and `app/` sees to it before the call.
