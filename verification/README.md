# linkedin_api

The feed operations of a LinkedIn client, verified with Verus.

The library in `src/` does no I/O. An operation that takes one request returns
that request: a path, a GraphQL query or mutation, or a full HTTP request. An
operation that takes several is a value that says what to send next and takes
the replies: `PostLookup` (find a post), `ReactionPager` (collect reactors),
`SingleUpload` and `MultipartUpload` (send a media file), `MediaWait` (wait until
the service has processed it). Contracts state what is sent and what follows from
each reply; `src/laws.rs` states and proves how the operations fit together.

JSON values are `json::Json`, modelled by `json::JsonView`; `print::json_text`
states their text, which ends the message of an error about one.

Strings that stand in a path or a query are encoded by a function that the
caller passes in, so the contracts hold for every encoding.

Two things are trusted and not proved: `text::to_uppercase`, which calls
`str::to_uppercase`, and `print::quote`, which has `serde_json` write a string.
Contracts speak of the first as `text::capital`, which is plain for ASCII
strings, and of the second as `print::quoted`, which is plain for all.

- `src/` the library
- `tests/` its tests
- `app/` the client around it: it sends the requests, over a `Session` that
  holds the connection and the encodings of the service
