# combinators

Adaptors over byte streams, with their behaviour stated as contracts and proved by Verus:

- `Limiter`: a window of limited length on a stream;
- `AsyncIoAdapter`: a blocking stream read from asynchronous code;
- `FixedLengthFile`: a file whose length is known in advance, in memory or elsewhere.

`src/` decides and computes. `app/` makes the adaptors streams of std and tokio: it asks
the streams underneath, runs workers, and opens files, as `src/` tells it to.

- `src/stream_adaptors/limiter.rs`: windows over any stream, each operation as a pair of
  functions around what the stream does
- `src/stream_adaptors/in_memory.rs`: the whole operations over bytes in memory
- `src/stream_adaptors/async_io.rs`: the state that a polling task shares with its worker
- `src/file_adaptors.rs`: files of fixed length
- `src/cursor.rs`: bytes in memory with a position
- `src/read_buf.rs`: what is relied on of `tokio::io::ReadBuf`
- `src/laws.rs`: what holds over several operations
