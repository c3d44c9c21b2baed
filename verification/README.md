# wasm_value

Runtime values of a WebAssembly interpreter and the conversions and
arithmetic performed on them, verified with Verus.

- `src/value.rs`: `RuntimeValue`, `VariableType`, `Error`, and the `TryInto`
  readings of a value.
- `src/convert.rs`: wrapping, extension and bit reinterpretation between the
  integer types.
- `src/endian.rs`: little-endian encoding and decoding of integers, through
  the `byteorder` crate.
- `src/arith.rs`: wrapping integer arithmetic, truncating division and
  remainder, bit counts and rotations.
- `src/bytes.rs`: the mathematics of little-endian byte strings and two's
  complement that the contracts are stated in.
- `app/lib.rs`: the floating-point operations, which stay outside the
  verified library; floats travel through it as IEEE 754 bit patterns.
