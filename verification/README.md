# geode_codegen

Pieces of the Geode bindings toolkit, verified with Verus.

- `src/windows_symbol.rs`: the decorated (mangled) names that the Microsoft x64
  C++ ABI gives member functions, built from a function's prototype. Every
  function is proved equal to a specification over character sequences.
- `src/laws.rs`: properties of the decoration that hold for every input
  (splitting a qualified name loses nothing, stripping `const` is idempotent,
  how namespaces are decorated, the shape of every symbol, and exactly when a
  symbol exists).
- `src/text.rs`: the string operations the decoration needs (`::` search,
  trimming, prefix and suffix tests).
- `src/stl_span.rs`: the MSVC `std::span` view, by address and length.
- `src/platform.rs`: the check on addresses returned by `wglGetProcAddress`.
- `app/`: the code that talks to the outside: conversion from `broma-rs`
  prototypes, the platform OpenGL loaders, and spans over Rust slices.
