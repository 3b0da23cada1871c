# yakyak

The domain core of a VoIP platform, written in Verus: calls and their
lifecycle, call detail records, queues and agents, parking, pickup,
forwarding, do-not-disturb, presence, message-waiting, conferences,
recordings, music on hold, announcements, WAV audio, API authentication,
IP blacklisting and security auditing, tenants and SIP trunks.

- `src/` is the verified library. Each operation states its outcome in
  its contract; operations that read the clock or draw an identifier have
  an `_at` form that takes the reading as an argument and says exactly
  what happens. Laws that relate several operations are public proof
  functions (`law_*`, `lemma_*`).
- `app/` is the unverified code around it: file and directory access,
  JSON, callbacks, asynchronous storage ports, and the computations done
  in floating point (money, call-quality scores, ratios and durations in
  seconds).
- `tests/` runs the library on concrete cases.
