pub mod binary_resolver;
pub mod json;
pub mod lsp;
pub mod oxfmt;
pub mod oxlint;
pub mod path;
pub mod str_map;
pub mod text;
pub mod vite_plus;

pub use lsp::ZedLspSupport;
pub use oxfmt::ZedOxfmtLsp;
pub use oxlint::ZedOxlintLsp;
