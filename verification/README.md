# obsidian_at_home

The rules behind a local Markdown vault app, written in Verus: what a vault
path may look like, how notes, images and attachments are named, imported,
exported and embedded, how dropped files are received in chunks, and which
folders a vault may live in. Every function in `src/` carries a contract that
Verus proves.

## Layout

- `src/` — the verified library.
  - `text`, `paths`, `names`: characters, `/`-separated paths read as
    `std::path::Path` reads them, and the names a vault accepts.
  - `workspace_paths`, `vault_paths`, `file_names`, `media`, `attachments`:
    which vault paths, file names, images and attachments are accepted, and
    the names new copies receive.
  - `frontmatter`: finding, reading and writing YAML frontmatter.
  - `encoding`: UTF-8 and percent decoding, file fingerprints, fresh IDs.
  - `folders`, `walk`, `places`: decisions on folders the user picks and on
    entries met while walking a vault.
  - `vault_import`, `vault_export`, `import_paths`: the steps of importing a
    vault and exporting a portable copy.
  - `assets`, `embedding`, `uploads`: stored asset records, embedding plans
    and decisions, and the ledger of dropped-file transfers.
  - `asset_moves`, `asset_deletion`, `reconcile`, `import_apply`: moving an
    asset with the note rewrites that go with it, deleting an asset as a
    transaction step by step with rollback, bringing records up to date when
    a vault opens, and committing imported assets step by step with
    rollback.
  - `render_laws`, `sorting`: reading back a written note's frontmatter, and
    the stable order records are listed in.
  - `rules`, `warnings`, `model`, `fonts`: settings, warning lists, the shared
    records, and the list of system font families.
- `tests/` — tests of the library on concrete values.
- `app/` — the desktop shell: commands, dialogs and file-system work that
  feeds the library plain values and acts on its answers.

Laws that span several functions are public proof functions whose names
start with `lemma_`; their doc comments state them in words.
