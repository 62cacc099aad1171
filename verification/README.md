# voxtype

The decision logic of a voice-typing assistant, verified with Verus: what
happens between the microphone and the text that lands in the focused
application.

- `src/` is the verified library.
  - `postprocess` cleans a language model's reply (echoed input blocks, stray
    tags, a leading label, surrounding blank lines).
  - `prompt` builds the system prompt (base rules, scene addon, dictionary,
    selected-text mode, translation instruction).
  - `llm` frames the chat request, splits a streamed reply into server-sent
    event lines, accumulates content and reasoning, recovers an answer from
    a thinking model's reasoning and shortens error bodies.
  - `stt` buffers audio under a size limit, frames it as WAV, builds the
    Qwen request and reads its reply, and decides what the cloud
    WebSocket's messages mean.
  - `sensevoice` parses the recognizer's tagged output lines and decodes
    its token stream; `vad` is the speech-segmentation state machine.
  - `model` keeps the cache and loading status of the local model.
  - `output` decides between pasting and typing, and the typing chunks.
  - `text` holds the shared character-sequence specifications and helpers.
- `tests/` exercises the library on concrete values.
- `app/` is the unverified side: HTTP and WebSocket clients, clipboard and
  keyboard access, the process-wide model cache, and the float-valued
  detector threshold.
