# gnuv2_demangle

A demangler for C++ symbols mangled with the GNU V2 scheme (g++ 2.9 and
older), verified with Verus, and `g2dem`, a `c++filt`-like command line tool
built on it.

Every demangling step is an executable function whose result is stated, in
its `ensures`, as a specification function over the characters of the
symbol; `demangle` is proved to give exactly `demangled(sym, config)`.

## Layout

- `src/input.rs`: the symbol being demangled, read as characters.
- `src/text.rs`: building output text.
- `src/remainer.rs`: numbers and characters at the front of a text.
- `src/str_cutter.rs`: splitting a symbol around a pattern.
- `src/demangle_config.rs`, `src/demangle_error.rs`: the settings and the
  failures.
- `src/dem.rs`: length-prefixed names and method qualifiers.
- `src/dem_arg.rs`: argument types, including function, method and member
  pointers and arrays.
- `src/dem_arg_list.rs`: argument lists and their look-backs.
- `src/dem_namespace.rs`, `src/dem_template.rs`: nested names, templated
  classes, template arguments and values.
- `src/demangler.rs`: whole symbols, `demangle`, and the laws about global
  constructors, destructors and frames.
- `src/settings.rs`: the demangling styles a page offers.
- `app/main.rs`: the `g2dem` command line tool.
- `tests/`: demangling scenarios and tests of the laws.
