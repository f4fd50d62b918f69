# bilianalysis

A redirect service for Bilibili: given a video or live-room link (or a bare
BV/AV identifier), it finds the stream URL through the Bilibili API, moves it
to the best CDN host, and answers with a `302` redirect.

The decision logic is a Verus-verified library under `src/`:

- `text` — character sequences: searching, trimming, decimal numbers.
- `patterns` — the leftmost-match searches for BV identifiers, AV numbers,
  pages and live rooms in a link.
- `bvid` — the AV-number to BV-identifier encoding, with the proof that it is
  injective on valid AV numbers.
- `weburl` — what the library reads of a URL parsed by the `url` crate.
- `bilibili` — link validation, video/live plans, cache keys, API status.
- `mirror_cdn` — CDN host classification and the host upgrade, with the proof
  that upgraded hosts are themselves kept.
- `shared_key` — the proof that a bare AV number (either case), its BV
  identifier and a video link with either share one cache key.
- `resolve`, `dedup`, `server` — the request flows as step functions from a
  state and an event to the next state and an action.

`app/` runs those flows: the HTTP server (axum), the API requests (reqwest),
the JSON decoding (serde), the caches (moka, dashmap) and the channels
(tokio) that share one resolution among concurrent requests.
