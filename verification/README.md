# Wireless display

A phone mirrors its screen to a desktop. This crate is the part of that system that decides
and computes, verified with Verus, and the programs around it.

* `src/` – the library. Functions have contracts that say what they give; of one that only
  reads a clock there is nothing to say. The laws that span functions are public proof
  functions whose names begin with `law_`.
  * `messages`, `wire`, `codec`, `framing` – the control protocol, from values to frames.
  * `secret`, `pairing`, `phone` – pairing with a six-digit code, on both sides.
  * `session`, `listener` – the states of a session and the receiver's answers.
  * `rtp`, `cast`, `media`, `ingest` – video packets, from the encoder to the decoder's queue.
  * `config`, `identity`, `discovery`, `diag`, `ui`, `opts`, `json`, `clock` – what the
    programs show, store and announce.
  * `text`, `ordmap` – texts and a map in order of its keys.
* `tests/` – ordinary tests of the library.
* `app/` – the receiver with its window, the mock phone, and what a phone's host calls:
  sockets, files, GTK and GStreamer.

What the library takes from other crates without proof stands behind small functions marked
`external_body`, each with a comment that says what is claimed of the call: postcard, sha2,
hex, ring, spake2, rcgen, serde_json and the clocks of the standard library.
