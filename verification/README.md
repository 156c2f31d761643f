# ek_dual_mic

Verified core of a two-machine crosstalk canceller: two nodes exchange raw
10 ms PCM frames over UDP, align them, and cancel the far talker from the near
microphone.

The library in `src/` is written in Verus; every function carries a contract
that Verus proves. It holds the logic that does not depend on floating point:

- `model`, `packet`: the frame and identity model and the UDP packet format
  (decoding an encoded frame is proved to give the frame back, cut or padded
  to one frame's length as `AudioFrame::new` makes it, for frames of fewer
  than 65536 samples);
- `jitter`, `history`, `transport`: the jitter buffer, the 2400-frame loss
  window, the mock link and the receive side of the UDP link;
- `config`, `catalog`, `import`, `workspace`: configuration rules, compiled-in
  presets, preset discovery, config-folder import with de-duplication and
  conflict renaming, and config path resolution;
- `output`, `schedule`: device format decoding, output routing, debug dump
  planning, and the frame schedule of the simulated scene;
- `ui`, `worker`: the operator-facing text and decisions of the control
  panel, and the recovery state machine of the runtime worker;
- `text`, `order`: the string and ordering helpers these rest on.

`app/` is the command-line program around it: TOML files, sockets, WAV files,
logging, threads, and the floating-point signal processing (NLMS
cancellation, residual suppression, alignment, voice activity). Run it with
`smoke`, `replay`, `run`, `devices`, `wav-dump` or `import`.

`tests/` exercises the library from outside.
