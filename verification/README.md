# winnie-cam

A LAN baby-monitor camera server: MJPEG video from a Raspberry Pi CSI
camera or a USB webcam, optional person detection with motion events, and
an on-demand microphone stream, with a web page to watch them.

## Layout

- `src/` - the verified library (Verus). Stream framing (`jpeg`,
  `audio::webm`, `web`), the audio publisher and supervisor decisions
  (`audio`), capture backoff and command lines (`capture`), frame-rate
  throttling, JPEG decoding, the motion grid, sampler, debouncer and event
  ring (`detect`), the hubs' bookkeeping (`hub`, `audio::hub`), the HTTP
  settings types (`shared_types`), and the viewer page's decisions
  (`viewer`: stream reconnects, Listen, alerts and chime, the settings
  form, the live-edge keep-up, and the texts it shows). Time is passed in
  as plain numbers (`clock`), so every state machine is specified and
  tested against fake time.
- `tests/` - tests of the library.
- `app/` - the server program around it: command line, subprocesses,
  V4L2, the ONNX model, floating-point geometry and scores, channels and
  the HTTP routes.

Every function in `src/` carries a contract checked by Verus; calls into
the `bytes` and `zune-jpeg` crates go through small trusted wrappers whose
contracts Verus takes on trust. Each wrapper's doc comment says what its
contract claims and what it leaves unsaid: for the `zune-jpeg` wrappers,
the decoded pixel values, and that no malformed input reaches a panic on
the crate's decode path, are not stated.
