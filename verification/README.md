# lilliput

Compact binary floating-point formats and the scalar values of the lilliput
serialization format, verified with Verus.

## Layout

- `src/format.rs`, `src/narrow.rs`, `src/widen.rs`: the bit layout of a binary
  floating-point format and the conversions between formats, stated over
  natural numbers and proved for every layout: rounding to nearest with ties
  to even when narrowing, exact widening, and the laws that relate the two.
- `src/floats.rs`, `src/bits.rs`, `src/be_bytes.rs`, `src/repr.rs`,
  `src/classify.rs`, `src/ordering.rs`: the float types `F8` to `F64` with
  their raw bits, big-endian bytes, constants, classification and comparison.
- `src/truncate.rs`, `src/extend.rs`, `src/pack.rs`, `src/packed.rs`:
  conversions between the float types and packing into the narrowest format
  that a validator accepts.
- `src/value.rs`, `src/value/`: the scalar values (bytes, unit, booleans,
  null, strings and integers compared by the number they stand for), with
  their displayed and debug text.
- `src/text.rs`: decimal, binary and hexadecimal digits of numbers.
- `src/config.rs`, `src/ser.rs`, `src/de.rs`: serializer configuration and the
  state that a serializer and a deserializer keep, and how an enum value is
  read, decided from the kind of its first item.
- `app/`: what works on native floats or implements traits of outside crates:
  the float value, the value tree with its serde impls, and the float
  validators used for packing.
