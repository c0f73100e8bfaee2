# home_nas

The logic of a home NAS server — accounts and tokens, share links with expiry,
view limits and burn-after-read, directory listings per app, video folder
recognition, LRC lyrics — written in Verus and verified.

- `src/` is the library. Each public function states what it returns in its
  `ensures`; the laws that relate several functions are public proof
  functions (`lemma_*`). Calls into `bcrypt`, `uuid`, `chrono`, `mime_guess`,
  `regex_lite` and `std::path` go through small trusted wrappers whose
  contracts say what those crates document.
- `app/` is the server around it: `axum` routes, PostgreSQL through `sqlx`,
  JWT through `jsonwebtoken`, audio tags through `lofty`, thumbnails through
  `image`, and the serde forms of the library's types.
- `tests/` runs the library on concrete values.
