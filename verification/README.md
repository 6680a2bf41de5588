# armature_lambda

An AWS Lambda runtime adapter for Armature applications, written in Verus.

- `src/` is the verified library. It reads an incoming Lambda HTTP event
  (`EventRequest`: API Gateway REST or HTTP API, ALB, Function URL) into a
  `LambdaRequest`, builds `LambdaResponse`s, and turns one into the
  `EventResponse` handed back to Lambda. Header lists keep their order and
  repeated names; lookups match names ASCII case-insensitively. The runtime
  configuration and base-path stripping live in `src/runtime.rs`.
- `app/` is the part Verus does not see: tracing setup, the async loop that
  runs on `lambda_http`, the `RequestHandler` trait and `impl_lambda_handler!`,
  and the conversions between `lambda_http`'s types and the library's events.
- `tests/` exercises the library on concrete requests and responses.
