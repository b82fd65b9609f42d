# pulse

A real-time voice lounge over UDP: clients capture audio, send it to a
server, and play what the server passes on from the other clients.

- `src/` is the verified library:
  - `packet`: packets, sets of packet kinds, the byte layout packets travel
    in (read and written through bincode), and `recv`, which reads a packet
    and refuses kinds the reader does not accept;
  - `wire`: little-endian layouts and the calls into bincode;
  - `relay`: the server's bookkeeping of clients and queued audio, and which
    client gets which bytes;
  - `audio`: which captured buffers are sent, how a frame fills the playback
    buffer, and the codec's buffers;
  - `devices`: audio device settings and the scan that sorts devices by host;
  - `config`, `error`, `client`, `server`: addresses, the tick rate, and errors;
  - `text`: the messages errors are shown with.
- `app/` holds the programs: sockets, threads, audio devices (cpal), the Opus
  codec and the command line (`pulse client|server [--local-addr A]
  [--remote-addr A] [--tick-rate N]`).
- `tests/` checks the library on concrete values.
