# Auto Voice

Local voice input: hold a key, speak, release it, and the text is inserted where the cursor is.
Audio files can be transcribed to Markdown, with speakers told apart.

- `src/` is the library, written in Verus. It holds every decision the program takes: resolving
  settings, the push-to-talk cycle, cutting speech into utterances, the live preview, the overlay's
  and the settings window's state, speaker stretches, the Markdown document, the language model's
  requests and replies, getting LM Studio ready, sockets' messages, window placement and fonts.
  Each function carries its contract, and the laws that span functions are proof functions beside
  them.
- `app/` is the program around it: arguments, files, microphones, the keyboard, models, the network
  and painting.
- `tests/` runs the library on concrete values.

Numbers the library only compares are held as the bits of single-precision floats (`single`), times
are nanoseconds, and positions in a recording are counted in 16 kHz samples. Where a limit is
reckoned in floating point, its rounding is stated and carried out on whole numbers (`rounding`).

The library trusts a few outside functions, each documented where it is declared: `String::push`,
`str::to_lowercase`, `char::is_alphanumeric`, `reqwest::Url::parse`, `serde_json::from_slice`,
`skrifa::raw::FileRef::new` and `chrono::Local::now`.
