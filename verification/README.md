# realtypro

RealtyPro is a realtor dashboard (clients, property listings, budget
matches) with a voice assistant. This crate is its verified core, written
in Verus:

- `src/text.rs` — trimming, integer parsing (`str::parse` semantics) and
  integer rendering, with the round-trip and injectivity laws.
- `src/models.rs` — client and property records, what a new record is
  stored as, and the checks of the add forms.
- `src/matching.rs` — which available properties fall in a client's budget.
- `src/display.rs` — the price, budget, time and label texts the pages show.
- `src/voice.rs` — the voice session: how each RAVI event, audio frame,
  voice-detector window and socket change updates the session state.
- `src/bridge.rs` — the server-side relay between browser and voice
  pipeline, and the pipeline's settings.
- `src/json.rs` — the two `serde_json` reads the session and relay rely on.

`app/` is the Dioxus application around it: pages, server functions over
Postgres, the WebSocket endpoint and browser audio.
