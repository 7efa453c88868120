# rfd (verified core)

The decisions of a cross-platform file and message dialog library, written in Verus
and proved against their contracts.

- `src/message_dialog.rs`, `src/file_dialog.rs`: the dialogs' options and answers.
- `src/backend.rs`: the interface each platform backend provides.
- `src/backend/*`: per platform, how a dialog is set up from the options and how the
  platform's answer becomes the dialog's result: GTK 3 and 4, the XDG desktop portal
  with its zenity fallback (`linux/zenity`), Windows, macOS, the browser (`wasm`), and
  the web fallback that shows dialogs as pages of a local server.
- `src/text.rs`: verified text helpers (search, trimming, splitting).
- `app/`: the I/O around the library: the local web server and the zenity runner.
- `tests/`: tests on concrete values.

Each module ends with its laws: proof functions stating properties that span calls,
such as the page and form round trips of the web fallback.
