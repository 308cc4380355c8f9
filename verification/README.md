# duck

The decisions a small walking robot's daemons and tools make, written in Verus: every function
under `src/` carries a contract and is proved to meet it. `app/` is the ordinary Rust around it,
which opens sockets, paints terminals, talks to BlueZ and GStreamer, and does the sums that need
floating point.

| Modules | What they decide |
| --- | --- |
| `proto`, `method`, `code`, `exit`, `version` | what travels on the sockets, and what an outcome is called |
| `route`, `session`, `framing`, `upstream`, `pairing`, `gatt` | what a phone may ask over Bluetooth, and how its lines get there and back |
| `net`, `units` | networks that are known and in range; which services run, and from which release |
| `client`, `commands`, `report`, `progress` | the command line: calls, answers, exit codes and what is printed |
| `monitor`, `panel` | the live view of the control loop |
| `hand`, `rank`, `head` | telling a hand from a wall in a depth frame |
| `duck`, `raster` | the baked model and the picture drawn from it |
| `pipeline` | the media pipeline's choices |
| `text` | text, with its meaning stated |

Floats cross into the library by their bits, or as order keys that compare as the floats do
(`rank::range_key`, `raster::depth_key`).

What is believed rather than proved: that `semver::Version::parse` is a function of its text and
that what it reads is written back the same (`version`), that `String::from_utf8` decodes exactly
what is UTF-8 (`framing`), and that a `serde_json::Value` can be carried around unread (`proto`).
