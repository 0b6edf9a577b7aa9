# tuner

The core of the tuner messenger bridge, which connects Telegram and Matrix chats to
coding-agent sessions, written in Verus with its behaviour stated as contracts and proved.

- `src/` is the verified library: text formatting for Telegram and Matrix, topic handover
  summaries, the room id map, access decisions, command routing, review sessions and their
  archives, cron list paging, the supervisor's decisions, and the text utilities they share.
  Calls into `regex`, `html-escape`, `sha2`, `url`, `zip`, `hex`, `rand` and `std` that the
  logic relies on stand behind small trusted wrappers whose contracts say what is assumed.
- `tests/` runs the library on concrete values.
- `app/` is the command-line program around it: argument handling, the setup wizard, the
  worker supervisor loop, JSON files on disk and the probes of the machine.
