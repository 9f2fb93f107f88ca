# macrdp

The logic of a macOS RDP server, verified with Verus.

`src/` is the library, verified by Verus. Its functions carry
`requires`/`ensures` contracts; those that read the clock or depend on a
random or outside result state what holds whatever came back. The laws
the library keeps are public proof functions (`lemma_*`). It covers:

- clipboard: UTF-16 text, the HTML clipboard format, DIB images, file URLs,
  the file-transfer state machine and the pasteboard format decisions
  (`formats`, `clipboard`, `html`, `dib`, `file_url`, `transfer`,
  `clipboard_flow`);
- the graphics pipeline: capability parsing and negotiation, ZGFX framing,
  frame planning and acknowledgements, H.264 stream handling, YUV 4:2:0
  conversion (`gfx_caps`, `zgfx`, `gfx_session`, `nal`, `yuv`, `encode`);
- display and streaming policy: resizing, dirty regions, idle frames,
  adaptive bitrate, backpressure and bitmap fallback (`display`, `bitrate`,
  `capture`), and the session's performance statistics (`perf`);
- input: pointer and wheel events, pointer coordinate mapping, modifier
  tracking, media keys and the handler's button state (`input`,
  `input_handler`);
- sound: format negotiation, interleaving and the streaming loop's
  bookkeeping (`audio`);
- startup: configuration, command-line overrides, credentials, resolution,
  TLS files, permissions and logs (`config`, `cli`, `paths`, `server`,
  `tls`, `permissions`, `log_bridge`, `features`), and where the build
  finds the Swift Concurrency runtime (`swift_runtime`).

Calls into other crates (`image`, `rand`, `dirs`, `rcgen`, and a few from
std) go through small trusted wrappers whose contracts state what those
crates document.

`app/` is the daemon binary around the library: command-line parsing,
the TOML configuration file, logging, the permission report as JSON, the
Keychain, sockets and file writes, the build-time runtime lookup, the
performance report, and the sample-level audio and pacing
code that works on floating point (sample shaping, frame pacing and the
link-quality estimate behind the adaptive bitrate).

Not included: the session runtime itself. The RDP server loop comes from
a fork of `ironrdp-server`, and screen capture, hardware encoding, audio
capture, the pasteboard and input injection are macOS framework code. The daemon runs its startup checks
and then stops with an error where that runtime would take over
(`app/platform.rs`).

`tests/` exercises the library on concrete values.
