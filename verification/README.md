# utf16_iter

Iteration by `char` over `&[u16]` holding potentially-invalid UTF-16, each
unpaired surrogate replaced by U+FFFD (`Utf16Chars`) or reported as an error
(`ErrorReportingUtf16Chars`), from either end, with or without the index at
which each `char` starts. Verified with Verus.

- `src/helpers.rs`: surrogate classification and conversion to `char`.
- `src/model.rs`: what decoding means, as spec functions over `Seq<u16>`.
- `src/handler.rs`, `src/indices.rs`: the iterators, generic over a handler.
- `src/basic.rs`, `src/report.rs`: the `char` and `Result` instances.
- `src/laws.rs`: properties proved of the decoding for every input.
