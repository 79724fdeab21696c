# obelisk

A SIP bridge that lets telephones and video endpoints join an OpenTalk
conference. The crate is split in two:

- `src/` is the library, written in Verus and verified: codec choice and
  H.264 parameter handling, reading and writing SDP bodies, SDP offer/answer
  state, SRTP key negotiation,
  RTP port and session bookkeeping, the DTMF filter, the audio track queue,
  configuration defaults and discovery, and the call signaling state machine
  (PIN entry, waiting room, recording consent, mute and hand-raise toggles),
  and where the bridge takes its public address from.
  Every public function carries a contract; the laws that relate several
  functions are public proof functions next to them.
- `app/` is the program around it: SIP and RTP sockets, the conference
  websocket, the media pipeline and the command line. It performs the I/O
  and carries out the actions the library decides on.

`tests/` runs the library on concrete values.
