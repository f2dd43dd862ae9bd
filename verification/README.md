# freeswitch-esl

A client for the FreeSWITCH event socket. The protocol is a verified library
without input or output: it decides what is written, who gets which frame, and
what each answer means. The application around it moves the bytes.

- `src/connection.rs`: the state of a connection and the steps of each command
- `src/reader.rs`: what becomes of the frames that come in
- `src/handshake.rs`: the exchange that opens a connection
- `src/response.rs`, `src/code.rs`: what answers say
- `src/command.rs`: the texts of commands
- `src/codec.rs`: commands and frames as bytes
- `src/event.rs`, `src/string_map.rs`, `src/text.rs`, `src/error.rs`: the data
- `src/outside.rs`: what is relied on of `serde_json`, `uuid` and the standard
  library
- `src/laws.rs`: what holds of a connection as a whole
- `app/`: connections over TCP, with tokio
