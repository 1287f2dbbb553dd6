# SuperVox

A voice-powered call assistant for the terminal: live subtitles, translation
and a rolling summary during calls, post-call analysis, and questions over
the call history.

## Layout

- `src/` is the library, written in Verus and verified: sentence splitting,
  voice-activity segmentation, the call history (filters, tags, search,
  statistics), the interface's key routing and state changes, prompts,
  protocol frames and Markdown export. Each public function states what it
  returns in its contract; `src/laws.rs` and a few modules hold proof
  functions for properties that relate several operations.
- `tests/` runs the library on concrete values.
- `app/` is the program around it: the command line, files on disk, audio
  capture, the realtime transcription socket, model calls and the terminal
  screen. It hands the library plain values and performs what the library
  decides.

## Usage

```bash
supervox live                    # live call assistant
supervox analyze <call.json>     # post-call analysis
supervox agent                   # chat with history
supervox calls                   # list past calls
supervox export <id>             # a call as Markdown
```

Configuration lives in `~/.supervox/config.toml`; calls are stored as JSON
under `~/.supervox/calls/`.
