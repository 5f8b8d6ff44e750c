# defeated_by_titan — the verified core

The decisions of a titan-fighting game, as a Verus library: what a sortie flies and how it is
judged, the session and its door, the wire format, the inbox with its latency, the menus' walk
between screens and what the HUD says.

- `src/` — the library. Every public function carries a contract; the laws of the game stand as
  public proof functions next to the code they are about (`law_…`).
  - `net` — the inbox (`Posteingang`), the wire format, the session roster, the door that turns
    datagrams into intents, and the keyboard's gestures.
  - `mission` — phases, clock, kill counter, waves, the judgement of each mode, the hub.
  - `menu` — screens, `Esc`, the buttons, the lobby's choice, the mission board, the settings.
  - `hud` — the objective line, the hit word, the crosshair and anchor-mark states, the board
    panel.
  - `data`, `progress`, `shared` — the shapes of the files and the small plain types.
- `tests/` — ordinary Rust tests against the compiled library.
- `app/` — the floating-point arithmetic (ticks from seconds, the spawn ring, the cart's walk,
  the hit mark's timing) and a headless runner of the network seam over a UDP socket.

Numbers the game computes with as `f32` are carried by the library as their bit patterns; it
compares and orders them, the arithmetic happens in `app/`.
