# github-actions-maintainer

Maintenance of GitHub repositories, written in Verus: workflow files whose actions are
pinned to commits or moved to their latest version, Cargo requirements that follow
crates.io, workflow policies, and releases driven by conventional commits.

## Layout

- `src/` is the library. Every function in it is verified against its contract. It never
  talks to a server or a disk: a call that needs answers is a function of the answers so
  far, and says which request comes next.
- `app/` is the program around it: it reads and writes files, sends the requests and
  prints what the library wrote.
- `tests/` runs the library on concrete values, with the answers of the servers given.

## Where to look

| Topic | Modules |
|---|---|
| workflow files | `workflow`, `model`, `pinning`, `update`, `policy`, `scripts` |
| Cargo manifests | `cargo`, `manifest`, `versioning`, `glob`, `version` |
| servers | `api`, `requests`, `calls`, `github`, `crates_io`, `transport` |
| releases and pull requests | `conventional`, `release`, `remote` |
| the command line | `input_env`, `arguments`, `cli`, `report` |
| texts | `text`, `paths`, `pattern` |

What holds of whole runs is stated as proof functions named `law_…`: for example that
every action is pinned after pinning, that a dry run changes nothing at GitHub, or that a
branch which advanced in the meantime is never released. They stand at the end of the
module they are about, or in `workflow_laws`, `pinning_laws`, `update_laws` and
`release_laws`.

Calls into the crates `regex`, `semver`, `toml_edit`, `urlencoding` and `clap` are made by
small functions marked `#[verifier::external_body]`; the comment above each says what is
taken for granted of the crate.
