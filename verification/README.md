# calf

The verified core of a Cloudflare Worker that serves Minecraft player data
(profile, signed textures, head, skin and cape images) from the Mojang services.

- `src/` is the library, verified with Verus:
  - `session.rs` — one player request as a state machine: the caller performs
    each fetch, read or parse it asks for and hands back what came of it;
  - `mojang.rs`, `textures.rs`, `imaging.rs` — what the Mojang answers mean,
    base64 textures, and the head/skin/cape image extraction;
  - `framing.rs` — the length-prefixed binary answer format;
  - `request.rs`, `text.rs` — query parameters and the batch part list;
  - `auth.rs`, `reply.rs`, `models.rs` — the API key check, answers, data.
- `app/` is the Worker around it: routing, HTTP fetches, JSON (de)serialisation
  and the OpenAPI description.
- `tests/` runs the library on concrete inputs.
