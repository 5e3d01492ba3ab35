# ord

Verified logic behind a few views of an ordinals inscription server, written
in Verus.

- `src/opus.rs`: which media types are Opus audio, which tags an Opus stream
  carries (read with symphonia), tag lookup, value sanitizing and tag-key
  normalization.
- `src/ogg.rs`: the Ogg page structure that decides which bodies are handed
  to the demuxer: pages that begin streams, their first packets, serials.
- `src/metadata.rs`: grouping of tags into a metadata map, common fields first.
- `src/inscriptions.rs`: listing sort orders, rarity and number filters, and the
  pagination query string.
- `src/server.rs`: content-security-policy headers and the public origin.
- `src/text.rs`: character-level helpers with their specifications.
- `src/laws.rs`, `src/key_laws.rs`: properties proved across these functions.
- `src/query_laws.rs`: reading a pagination query string back into the sort
  and filter it was made from.
- `app/`: the request extractor, serde forms of the listing options, CBOR
  metadata values and error messages.
