# kwtsms

Client for the kwtSMS API (kwtsms.com), with its logic verified by Verus.

`src/` is the verified library:

- `phone` / `phone_rules`: phone-number normalization (Arabic digits, separators,
  leading zeros, domestic trunk prefix), E.164 length checks and the
  per-country table of local lengths and mobile prefixes.
- `message`: message cleaning (Arabic digits, emojis, invisible and directional
  characters, control characters, HTML tags).
- `errors`: the error type, the API error-code table and `enrich_error`.
- `client`: client configuration, recipient sorting and de-duplication, send
  planning and batching, bulk-send totals, retry decisions, reply texts, the
  validate lists and the sender-id copy.
- `request`: the request body, and how a reply body (success or HTTP error
  status) becomes the call's result and its log record.
- `replies`: the error replies the client composes itself and the JSON list of
  rejected numbers.
- `env`: `.env` parsing and setting resolution.
- `logger`: UTC timestamps (a verified Gregorian calendar), password masking
  and the JSONL log line.
- `json`: the `serde_json` calls the library makes, behind trusted wrappers.
- `text`: character-level helpers (trim, decimal rendering, joins, splits).

`app/` holds what does HTTP, file, environment and clock work: the `KwtSms`
client (built on `ureq`), JSONL logging, `.env` loading, the serde result types
and the command line.
