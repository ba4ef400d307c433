# RuneRoster core

A launcher that manages several Jagex accounts as profiles and starts RuneLite for each,
logged into a chosen character. The logic is a library verified with Verus; a small program
around it does the input and output.

## Layout

- `src/` — the verified library.
  - `text.rs`: character-level string operations (search, split, replace, trim) with their
    meaning over `Seq<char>`.
  - `news.rs`: reading news items out of the RSS feed.
  - `auth.rs`: the two-leg OAuth2/OIDC login: PKCE, state, authorize URLs, parsing of the
    pasted redirect URLs, the token forms, and the `LoginFlow` state machine. Laws state that
    a redirect URL gives back the code (and id_token) it carries exactly when its state is the
    expected one.
  - `accounts.rs`: profiles and the registry, with laws on adding and removing.
  - `characters.rs`, `session.rs`, `launcher.rs`: the character list, the launch session and the
    command that starts the client.
  - `runelite_config.rs`: which settings files a "copy settings" touches.
  - `store.rs`: the credential-store entry of a profile's refresh token.
  - `ui.rs`: the launcher's state machine (`App::update` takes a message to the next state and
    the work to do), including the "Log in again" action of a profile whose session expired,
    and what each screen shows: the wizard pages, the profile cards, the news cards with their
    thumbnails, the character rows and the notes.
- `app/` — the program: the `iced` window, HTTP requests, the profile file, the credential
  store and the client process. It performs the work that `App::update` asks for.
- `tests/` — tests of the library.

Calls into `urlencoding`, `sha2`, `base64`, `serde_json`, `rand` and `uuid` stand behind small
trusted wrappers whose contracts state what those crates do.
