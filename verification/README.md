# librefang

Rules for the channels of a messaging agent, written in Rust and proved with Verus: what is
answered, what is sent, and in which shape.

- `whatsapp`: which messages are answered, the posts that deliver a content through the gateway
  or the Cloud API, and what a reply to a post means.
- `coalescing`: messages that arrive close together become one batch per channel, chat and sender.
- `audio_normalizer`: how an audio file is reshaped for a channel, how a probe report is read, and
  how the waveform of a voice note is measured.
- `rate_limit_notifier`: the notice for a turn that is on hold.
- `stranger_response_sanitizer`: status lines that never go to a sender who is not the owner.
- `html_strip`: plain text out of markup.
- `types`, `json`, `text`, `clock`, `file_names`: what the others are made of.

`src/` is the library; every public function in it carries its contract, and what holds of several
functions together is stated in the proof functions whose names begin with `law_`. `app/` runs the
rules: timers, subprocesses, files, environment and network. `tests/` runs the library.
