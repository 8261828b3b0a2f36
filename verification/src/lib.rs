pub mod asset_actions;
pub mod asset_deletion;
pub mod asset_moves;
pub mod assets;
pub mod attachments;
pub mod embedding;
pub mod encoding;
pub mod file_names;
pub mod folders;
pub mod fonts;
pub mod frontmatter;
pub mod import_apply;
pub mod import_paths;
pub mod media;
pub mod model;
pub mod names;
pub mod paths;
pub mod places;
pub mod reconcile;
pub mod render_laws;
pub mod rules;
pub mod sorting;
pub mod text;
pub mod uploads;
pub mod vault_export;
pub mod vault_import;
pub mod vault_paths;
pub mod walk;
pub mod warnings;
pub mod workspace_paths;
