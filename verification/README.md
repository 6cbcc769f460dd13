# diffutils

The argument parsers and the comparison logic of the diff utilities `cmp`,
`sdiff` and `diff3`, verified with Verus.

## Layout

- `src/params_gen.rs`: a generic parser of options and operands, driven by a
  table of options; byte values with units (`50KiB`).
- `src/cmp/`: the two parsers of `cmp` (`params.rs` with its options built in,
  `params_cmp.rs` on top of the generic parser) and their texts and errors.
- `src/cmp.rs`: what `cmp` decides on each pair of chunks it reads, and the
  texts it writes (visible bytes, octal, verbose lines, messages).
- `src/sdiff/`, `src/diff3/`: the parsers of `sdiff` and `diff3`.
- `src/option_generator.rs`: writes option definitions from a help text.
- `src/text.rs`: characters, decimal numbers and strings.
- `app/`: the multi-call binary: command line, files, output.
- `tests/`: tests of the library.

Each parser states in its contract the result it gives for every command
line; the laws of the library are proof functions next to the code they are
about: the parsers never combine silence with output, abbreviations read as
the option, byte values read back; two inputs compare equal exactly when
they hold the same bytes (`lemma_compare_equal_iff_same`), and with a byte
limit exactly when their first LIMIT bytes are the same
(`lemma_compare_limited`), whatever the sizes of the chunks the readers hand
over.
