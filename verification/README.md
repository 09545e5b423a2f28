# SparkSpeech

SparkSpeech is a Windows dictation tool: a global shortcut starts a recording, Doubao
streaming ASR recognises it, an OpenAI-compatible chat model tidies the text, and the result
is kept in a local history, copied to the clipboard and optionally pasted.

The library in `src/` holds the logic, verified with Verus:

| module | what it covers |
| --- | --- |
| `text` | trimming, character counts, decimal formatting and parsing, the order of texts, realtime transcript merging |
| `models` | settings, prompts, records, sessions and overlay state, with their defaults |
| `records` | the history: newest-first order, pages, insert or replace, lookup, deletion |
| `protocol` | the Doubao binary frame format, gzip, UTF-8 and base64 at the edges |
| `json` | reading recognised text and utterances out of Doubao responses |
| `doubao` | connection request headers, decoded frames, audio upload chunks and pacing |
| `provider` | text optimisation providers, prompts, request headers, responses and streamed lines |
| `audio` | recorder buffer windows, realtime chunks, device name lists |
| `session` | a record's life: saving audio, recognition, fast finalisation, optimisation, previews |
| `overlay` | the recording overlay's states |
| `shortcut` | shortcut names to key codes, and the key events that toggle recording |

`app/` is the Tauri application around it: commands, windows, files, the microphone, the
network, the clipboard and the keyboard hook. `tests/` runs the library on concrete values.
