# netfp

Network fingerprinting primitives, verified with Verus:

- JA3 and JA3S passive TLS client and server fingerprints;
- JARM active TLS server fingerprints: the ten `ClientHello` probes and the
  fingerprint of the server's answers;
- the TLS wire types they rest on: records, handshake messages, `ClientHello`
  and `ServerHello` bodies, extensions, and a decoder that reassembles a
  `ServerHello` from a stream of records.

## Layout

- `src/` is the library. Every parser and encoder is specified by a spec
  function over byte sequences (`parse_record`, `encode_client_hello`,
  `parse_server_hello`, `probe_bytes`, `jarm_value`, ...) and the executable
  code is proved to compute exactly that. Round trips and the other properties
  of the formats are stated as `law_*` proof functions.
- `src/digest.rs`, `src/utils.rs` and `str_from_utf8` in `src/text.rs` are the
  only places that call code that is not verified (the `md-5`, `sha2` and
  `rand` crates and `core::str::from_utf8`); their doc comments say what is
  assumed of each call.
- `tests/` exercises the library on concrete values.
- `app/main.rs` is a small program that sends the JARM probes to one server
  and prints its fingerprint.
