# llm_api

A unified intermediate representation (IR) for chat model APIs, with verified
conversion to and from three provider formats: Anthropic Messages, Google
`generateContent` and OpenAI Chat Completions.

- `src/` is the library. Everything in it is verified with Verus: the JSON
  model and its merging, the IR, the conversion of requests, responses and
  streams of every format, the accumulation of streams, URL building, header
  layering, the strict gate and hooks, and the decisions of a client call.
- `tests/` runs the library on concrete values.
- `app/` is the asynchronous client: transport, trait objects and streams
  around the library.

Each type `T` has a mathematical value `TV`, its view. Contracts state the
result of a function as a spec function over these values; the wrappers around
`serde_json`, `http` and `std` are the only functions without a proof, and each
says what it claims.

What holds across functions is stated as public proof functions:

- `json_laws`, `namespaces`, `sweep`, `pointer`: merging, provider data and
  pointers.
- `formats/*/round_trip*`: a request that a format can carry is read back from
  the body that it becomes, without a warning from the parse.
- `formats/*/canonical_request`: a body that went through the IR once stays as
  it is from then on (`canonical_form_is_stable`, and `canonical_bytes_are_stable`
  of its bytes). The options must repair nothing. `steady_request` says which
  bodies are left out: for Anthropic and OpenAI by what they hold, such as numbers
  that are not read as they are written; for Google by each part and each
  configuration object keeping its own form, which `canonical_parts` shows of the
  parts that the format can carry.
- `protocol`, `formats/*/stream_laws`, `formats/*/stream_sums`: events come in
  order, truncated streams are errors, and streamed blocks equal those of the
  whole response.
- `accumulate`, `client`: orderly streams add up, to the blocks that their stops
  carry; no warning is lost; a stream yields one error at most; nothing fails
  after the terminator; header layers and caps.
- `history`, `url`, `scan`, `convert::gate`: repairs, query parameters, percent
  encoding and strict mode.
