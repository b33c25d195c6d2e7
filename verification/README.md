# gettext_macros

Macros that translate a Rust crate with GetText, as a verified library and a thin front end.

- `src/` is the library, written in Verus. It takes the tokens of macro calls apart, decides what is
  listed in the template of translations, keeps the configuration of a crate, drives the GetText tools
  and makes the code that takes the place of each call.
  - `token`, `text`: tokens and strings, and how they are cut apart.
  - `message`: the message that a call names, and its entry in the template.
  - `config`, `paths`: the configuration file, and where files are.
  - `init`, `macros`, `compile`, `embed`: the macros `init_i18n`, `t`, `i18n`, `i18n_domain`,
    `compile_i18n` and `include_i18n`.
  - `code`: the code that a macro makes.
  - `fault`: the reasons for which a call is refused.
  - `laws`: what holds of the library as a whole.
- `app/` is the front end: it converts the compiler's tokens, reads and writes files and runs programs.
- `tests/` runs the library.

The code that `i18n` and `include_i18n` make uses the crates `runtime_fmt` and `gettext`, which the
translated crate has to depend on.
