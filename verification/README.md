# boro

A library for the review of patches by a model, verified with Verus, and a command line program
around it.

- `src/` holds what is decided and computed: which lines a diff shows, what findings point at, when
  two findings are the same, which of them stay, how the review of a commit runs through its stages,
  and what is reported. Every function states what it returns, and the laws that relate functions
  are proved beside them and in the `*_laws` modules.
- `tests/` runs the library on concrete values.
- `app/` asks git, the model and the mailing list, and hands their answers to the library.

Two functions of the standard library are taken on trust, both in `src/text.rs`: `String::push`,
and `char::is_alphanumeric` for characters beyond ASCII.
