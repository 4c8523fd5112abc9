# cheetah_containers

Media container readers and writers with their behaviour stated as Verus
contracts and proved:

- `annexb` — Annex B start-code scanning, NAL classification, parameter-set caches.
- `crypto` — AES-128 / SM4 CBC segment decryption (block ciphers from the `aes`
  and `sm4` crates), XOR transforms.
- `flv` — FLV file and tag headers, audio/video tag headers, AMF0 script data,
  the FLV muxer, and the decisions of the bounded FLV recorder.
- `hls` — HLS / LL-HLS playlist parsing (decimal quantities kept as text),
  URI resolution, variant selection, and the client's state machine
  (`hls::session`): requests, epochs and cancellations, playlist switches and
  reloads, download order, retries and stops.
- `isobmff` — ISO BMFF boxes, `moof`/`traf`/`trun` parsing and sample emission,
  the fragment stage of the demuxer (discontinuity detection, epochs, event
  queue), the progressive MP4 muxer, and the fragmented MP4 muxer.
- `mpegps` — MPEG program stream framing, and the cutting of ADTS frames out
  of audio payloads around the caller's ADTS header reads.
- `mpegts` — MPEG-TS packets, PSI sections, PES assembly and the PCR clock.
- `flv::transmux`, `mpegts::transmux` — the muxer configuration derived from a
  track declaration.

Not here: the stages that turn codec bitstreams into track declarations
(Annex B / FLV / MPEG-TS demuxers past their framing, `moov` and sample-entry
parsing, MPEG-PS elementary-stream assembly, ADTS and MP3 frame walks). They rest on H.264 / H.265 parameter-set
and audio-header parsers of a media-bitstream crate that this build cannot
obtain; the MPEG-PS demuxer therefore hands out PES payloads as they arrive.

`app/` holds what works in floating point (HLS durations, the HLS client's
reload interval and the segment a seek time falls in, FLV `onMetaData`
numbers), the calls of caller-supplied code (the HLS variant selector, the
FLV recorder's writer), and the reading of playlist bytes into the
floating-point models, handing each outcome to the library.
