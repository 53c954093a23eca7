# software_manager

The core of a Windows software manager, written in Verus: the rules that
decide where packages are cached, which release asset is the portable build,
which executable in an archive is the program, how custom download sources are
named, validated and stored, how uninstall commands are started, and how the
visual-automation templates, steps and script results are handled. Every
function in `src/` carries a contract that Verus proves.

## Layout

- `src/text.rs` — characters, trimming, splitting and decimal numbers, with
  their specifications.
- `src/config.rs` — install-path settings and the package cache layout
  (Windows paths held as strings).
- `src/software.rs` — the built-in catalogue and portable-asset matching.
- `src/custom_software.rs` — custom download sources: ids, validation, URLs,
  icons, silent-install profiles, storing and removing.
- `src/web.rs` — URL parsing through `reqwest::Url`.
- `src/encoding.rs` — console output (UTF-8 or GBK) and JSON string literals.
- `src/installer.rs` — package kinds, the main-executable choice, shortcuts,
  registry uninstall entries and uninstall commands.
- `src/ocr_install.rs` — the assisted WeGame install.
- `src/visual_target.rs` — rules, chains, automation steps and templates,
  script command lines, script output and input verdicts.
- `src/cursor_control.rs` — input reports, window-message coordinates, window
  search and keyboard strokes.
- `src/github.rs` — the release fields that are read.
- `tests/` — tests of the library on concrete values.
- `app/` — the command front end: files, network, processes and the Windows
  calls, around the library.

Laws that span several functions are stated as `law_*` proof functions next
to the functions they relate.
