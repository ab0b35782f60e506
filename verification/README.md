# iterm_player

A terminal radio player. The library (`src/`) holds everything the player
decides, each function with a proved contract:

- `spectrum` – resampling the analyser's bars, laying them out across the
  panel, drawing them as block characters, and the tab-title animation.
- `catalog` – the stations and accent colours, looking them up by (the start
  of) a name, and `/next`.
- `completion` – Tab completion and longest common prefixes.
- `text` – trimming, prefix stripping, decimal numbers and byte parsing on
  character sequences.
- `player` – the player state machine: status texts, the command line,
  keys, stream updates, socket commands and the widget state.
- `control` – reading requests on the control socket and the replies.
- `nowplaying` – reading the track line out of the stations' live feeds.
- `samples`, `search_path` – the analysis queue and the media framework's
  search paths.

`app/` is the terminal front end: drawing, audio decoding and analysis, the
metadata poller, the control socket and the status file.
