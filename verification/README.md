# interjections

A voice layer for an assistant's web page, with its decisions verified by Verus.

The program is a TLS reverse proxy. It puts a microphone widget into the page, turns what the
user says into text, collects the pieces into one thought, hands the thought to the assistant
and reads the answer aloud.

## Layout

- `src/` is the verified library: every rule, parser and state machine, with contracts.
  - `audio`, `pcm`, `vad`: frames, bytes of samples, and when sound counts as speech
  - `local_asr`: what the recognizer heard
  - `cues`: words that cut in, correct, add or only show attention
  - `reconciler`: the turns of an utterance and the one text they come down to
  - `gate`: whether a thought is complete
  - `controller`: the state machine between the recognizer and the page
  - `sse`: the assistant's answer in its stream of events
  - `tts`: which engine speaks, what it is asked, and what becomes of its answers
  - `web`, `widget`: the proxy's rules, the widget, and the connection to a page
  - `pem`: the server's certificates and key
  - `config`: settings
  - `text`, `json`, `base64_text`, `clock`: what the rest is written in
- `tests/` runs the library on concrete values.
- `app/` is the program around it: the command line, devices, sockets, TLS, and floating
  point.

## Contracts

Each module describes its data by spec functions on sequences and maps. An executable
function says that its result is what the spec function says. Statements about more than one
call are proof functions whose names begin with `law_`.

Calls into other crates stand behind small wrappers, whose doc comments say what is taken for
granted: JSON (`json`), Base64 (`base64_text`), PEM (`pem`), random identifiers (`tts`), the
clock (`clock`), and a few functions of the standard library (`text`, `pcm`, `sse`).
