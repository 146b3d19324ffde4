# samp_cef

The decisions of a SA:MP client plugin that embeds Chromium (CEF) in the
game, verified with Verus.

`src/` holds the library. Every function there carries a contract, and the
properties that span several calls are proved as lemmas next to the code:

- `paths`, `text`, `locations`, `cef_setup`: Windows paths as components,
  with drive, share, device and verbatim prefixes
  (join, lexical normalisation, prefix stripping, rendering), text search,
  where the CEF directory and its files are.
- `assets`, `resource`: which URL a browser starts with, and how requests of
  the `sampcef://assets/` scheme are answered and their bodies read.
- `manager`, `app_state`, `network`, `plugins`: the browsers of the game and
  who holds the input focus, the game thread's events, the connection to the
  server plugin, and the plugins' entry points.
- `view`, `web_client`: how painted frames and popups are copied into a
  browser's texture, and how a browser is hidden and shown.
- `input`, `messages`: window messages, key modifiers and page messages.
- `audio`, `render`, `crash`, `components`: the sound streams of browsers
  drawn on objects, frame counting and material choice, the crash report,
  and the HUD elements.

`app/` is the unverified part: reading files, loading plugin libraries, the
OpenAL sound device, patching the game's memory for the HUD, writing the
crash log as JSON, logging, and handing window messages and page events to
the browsers' hosts. The glue to CEF and to the game itself is not here: the
crates it needs are not available.
