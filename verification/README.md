# webdock

The core of the WebRust remote-desktop host as a Verus-verified library, and
the host program around it.

- `src/` — the verified library. Every decision of the host is here with its
  contract: access control and the token login (`auth`, `gate`, `login`,
  `config`), the WebSocket control channel (`control`, `hub`, `seat`), stream
  settings and the capture loop's decisions (`capture`, `fanout`, `still`),
  the H.264 bookkeeping for the software and hardware encoders (`soft`, `vt`,
  `h264`, `frame`), input mapping (`input`, `ime`), window and application
  commands (`windowctl`, `apps`), the WebUI files (`web`), updates
  (`updater`, `hostctl`) and the command line (`cli`). Public proof
  functions named `lemma_*` state the laws that span several calls.
- `tests/` — tests of the library on concrete values.
- `app/` — the program: `main`, the axum server, the WebSocket session that
  performs what the library decides, settings on disk, the update check and
  the operating-system backends.
