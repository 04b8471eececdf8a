# dock

A dock for the niri Wayland compositor. The logic is a Verus-verified
library under `src/`; the GTK/relm4 front end, the niri socket I/O and the
tokio runtime live in `app/`.

- `src/backoff.rs` – reconnect delays that double up to a cap and reset
  after a long attempt, with the laws that describe them.
- `src/dock/` – the dock's model: window buttons driven by niri events
  (with the widget changes that mirror them), launcher buttons from the
  configuration, the icon cache, the hover indicator and single buttons.
- `src/ipc.rs` – requests and replies in niri's JSON, errors, and the decisions of the request
  worker and of the event-stream reader.
- `src/config.rs` – where the configuration directory is.
- `src/application.rs` – how the dock's requests become niri requests.
