# UBASS

A peer-to-peer protocol for byte streams over UDP: encrypted sessions, forward error
correction, selective retransmission and measurements of how streams arrive.

- `src/` is the protocol itself, verified with Verus. It holds no sockets, timers or tasks:
  every function takes the current time and what came in, changes the state, and appends what
  is to be done to a list of actions.
  - `wire`, `manager::{fields, identity, ranges, header, images, packets}` and
    `packet_processor::serialize`: what packets look like as bytes.
  - `packet_processor`: packets on their way out and in, their protection, and the recovery of
    lost ones (`fec`). `delivery` shows that what one peer sends is what the other reads.
  - `manager`: sessions, handshakes, streams, acknowledgements and requests. `laws` holds what
    is true of the protocol as a whole, `transfer_laws` what is true of a stream from one end
    to the other.
  - `transport`: how packets leave, and the pool of sockets that they leave by.
  - `api`: the buffers at the ends of a stream (`types`, `buffer_laws`), and the rules of what
    an application sees.
  - `utils`: the collector of measurements, actions, and small containers.
- `app/` runs the library on tokio: it reads and writes datagrams, keeps time and carries out
  the actions.
- `tests/` runs the library, among other things as two peers on a simulated network.

A stream is cut into chunks of 1384 bytes. The outside crates do the cryptography
(`aes-gcm-siv`, `x25519-dalek`), the digests (`xxhash-rust`, `siphasher`), the Reed-Solomon
code (`reed-solomon-simd`) and the random numbers (`rand`).
