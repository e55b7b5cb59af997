# AmberGuard

Keeps a phone on the better band of its wireless network: it scores the link once a second,
leaves the preferred band when the link has been bad for some seconds, goes back when the
preferred band is strong again, moves to a better access point of the same band, and stays out of
the way when the user has switched by hand, when the screen is off and outside the home group.

- `src/` is the library: every decision, parser and text, each with a contract that Verus proves.
  It reads no clock, file or socket; times are nanoseconds that are handed in.
- `app/` is the daemon around it: the control socket, the commands of the phone, the settings on
  disk, the log and the panel.
- `tests/` runs the library on concrete values.

The library by subject:

| subject | modules |
| --- | --- |
| texts and numbers | `text`, `numbers`, `json`, `text_map`, `order`, `clock` |
| the link's health | `station_info`, `health_score`, `score` |
| networks and access points | `ssid`, `band_bond`, `wpa_ctrl`, `wifi_framework`, `bssid_stats` |
| when and where to switch | `state_machine`, `scheduler`, `round`, `outcome`, `landing`, `hold`, `power_state`, `l3` |
| settings | `config`, `config_guide` |
| what is shown | `status_text`, `tick`, `web`, `events`, `history`, `http`, `module_prop`, `notify`, `file_log` |

Laws that span several functions are the public proof functions whose names begin with `law_`.

Scores are floating-point numbers to the user and on disk. The library computes them as exact
fractions and compares them by rank, the order of their bit patterns; `app/points.rs` converts.
