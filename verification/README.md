# tubecast

A command line tool that casts YouTube videos to a TV over the YouTube Lounge API, built around a
verified library.

- `src/` is the library: reading targets, settings and answers, choosing devices and videos, and
  deciding what to try next. Every function carries a contract that Verus proves, save the few that call
  outside code, whose contracts are taken on trust (see below).
- `app/` is the program around it: arguments, files, the network and the terminal.
- `tests/` runs the library on concrete values.

| Module | What it is about |
| --- | --- |
| `parse`, `web` | videos and playlists named by id or URL |
| `config`, `devices` | paired TVs: resolving, pairing, discovery, repair, links, the default |
| `dial` | SSDP answers and DIAL descriptions |
| `transport`, `cast` | commands, confirmation, resending, and the order in which casting is tried |
| `playlet` | the web API of a Playlet TV |
| `search`, `json`, `figures` | search requests, their answers, and the figures in a listing |
| `lucky` | random picks and the history that keeps them fresh |
| `transcript` | subtitles as plain text |
| `slug`, `text`, `lists` | aliases, texts and lists |

The contracts of outside functions that Verus takes on trust stand next to the calls: the URL
parser (`web`), the lounge's playback states (`transport`), random numbers and JSON lists
(`lucky`), the clock (`figures`), lossy UTF-8 (`dial`), and two functions of the standard library
(`text`).
