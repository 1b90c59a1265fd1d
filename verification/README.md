# fastsapp

The logic of FastsApp, a native WhatsApp client, written in Verus: each
function carries a contract, and Verus proves the code meets it.

## Layout

- `src/` is the verified library.
  - `model.rs`: chats, messages, contacts, and the actions views ask for.
  - `app.rs` and `app/`: the application state and every step it takes:
    actions (`apply`), backend events (`handle_event`), upkeep (`tick`),
    what reaches the app each frame (`frame.rs`), and the laws that hold
    across them (`laws.rs`).
  - `backend.rs`: the commands for the WhatsApp backend and the events it
    sends back.
  - `transcript.rs`: copied text rebuilt as WhatsApp writes a transcript.
  - `emoji.rs`, `bidi.rs`, `text.rs`, `util.rs`: text, emoji, right-to-left
    runs, dates, sizes, and phone numbers.
  - `table.rs`: a map from text keys, with its contents as its view.
  - `animation.rs`: which frame of an animation shows when, which decoded
    animations stay in memory, and how video samples reach the decoder.
  - `ui/`: the decisions behind the views: the line under a chat's name,
    reaction chips, the emoji picker's rows, and the send key.
  - `qr.rs`, `tray.rs`, `notify.rs`, `paths.rs`, `settings.rs`,
    `single_instance.rs`: the pairing code, the tray icon, notifications,
    file locations, preferences, and the one running instance.
- `app/` is the program around the library: the command line, logging,
  files on disk, the loopback socket that keeps one instance running, the
  tray item, desktop notifications, and the frame loop that hands the
  library its actions and carries out the effects it asks for.
- `tests/` runs the library on concrete values.
