# scorebar

A Sleeper fantasy football scoreboard: this week's score for every league a
manager is in, who is leading, and by how much. Sleeper's read API is public,
so a username is all it needs.

## Layout

- `src/` is the library, written in Verus and verified: its functions
  carry `requires` / `ensures` contracts (a `From` impl's contract is its
  `from_spec`, and the clock's reading is only tied to some time the clock
  could have read), and the rules that span functions are stated and proved
  as lemmas.
  - `text` — Unicode whitespace trimming, ASCII case folding, decimal numbers.
  - `sleeper` — the read API's ids, payload models, the player dictionary,
    how a week's matchup entries pair into games, the endpoints and their
    errors.
  - `scoreboard` — where a week is, whose team is whose, who is still to
    play, a lineup's rows, and what can go wrong building a snapshot.
  - `settings` — the user's choices and the rules that clamp them.
  - `captions` — every line the menu bar item, the popover and the detail
    window print.
  - `refresh` — when to fetch, and what a fetch does to what is on screen.
  - `tabs` — which league the detail window is showing.
- `app/` is ordinary Rust around it: the HTTP client, JSON and TOML
  decoding, the cache directory, the scores and win probabilities (floating
  point, simulated), and a terminal front end.
- `tests/` runs the library on concrete values.

Floating point stays in `app/`: a score, a projection or a probability is
computed there and reaches the library as the integer or text it decides on.
