# CapDrop

A lightweight screenshot tool: global hotkey, region capture, and automatic
saving to the clipboard, a local folder or a Markdown file.

- `src/` is the verified library (Verus): settings and their defaults
  (`config`), hotkey parsing (`hotkey`), file naming (`{timestamp}`, `{date}`, `{time}`, `{seq}`,
  `{ms}`) and `~` expansion (`local`), Markdown embedding (`markdown`), the capture and clipboard
  command lines and screenshot decoding (`capture`, `clipboard`), and the
  save run that drives saving to every enabled target (`storage`). Text
  handling is in `text`; the clock, paths and codecs, which rest on `chrono`,
  `std::path`, `dirs`, `base64` and `image`, are in `clock`, `paths` and
  `codec`.
- `app/` is the Tauri application around it: the commands, the settings
  file, the hotkey registration and everything that touches the screen, the
  disk or the clipboard.
- `tests/` exercises the library on concrete inputs.
