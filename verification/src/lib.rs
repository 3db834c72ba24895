//! Verified editor features for the Achitekfile DSL and Tera templates.
//!
//! The crate turns Achitekfile source into editor answers (symbols, hover,
//! completion, definition, references and rename), models and checks Tera
//! templates, and holds the language server's document store and message
//! routing.

pub mod achitek;
pub mod completion;
pub mod editor;
pub mod handlers;
pub mod hover;
pub mod server;
pub mod syntax;
pub mod terafile;
pub mod text;

pub use completion::{Completion, CompletionKind};
pub use editor::{build, DefinitionTarget, DocumentModel, PrepareRenameTarget, ReferenceTarget, SourceTree, Symbol, SymbolKind};
pub use hover::Hover;
pub use syntax::{SyntaxNode, SyntaxTree};
pub use text::{TextPosition, TextRange};
