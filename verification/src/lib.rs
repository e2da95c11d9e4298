//! A digest of a source tree: for each recognised file its declarations,
//! signatures and imports, with the bodies elided.

pub mod config;
pub mod engine;
pub mod file_processor;
pub mod file_system;
pub mod file_tree;
pub mod grammar;
pub mod languages;
pub mod parse;
pub mod paths;
pub mod render;
pub mod selector;
pub mod state;
pub mod text;
pub mod tree;

pub use crate::config::{strip_quotes, AppConfig, ConfigError};
pub use crate::engine::extract;
pub use crate::file_processor::{
    process_file,
    process_files,
    render_digest,
    render_parsed,
    render_verbatim,
    FileProcessorError,
    FileSkipReason,
    ReadFile,
};
pub use crate::file_system::{ignore_rules, File, FileKind, GlobPatternMatcher, InvalidGlob};
pub use crate::file_tree::{
    has_later_sibling,
    print_file_tree,
    print_indent,
    render_pieces,
    CallbackArgs,
    FileTreeError,
};
pub use crate::grammar::{report, to_tree};
pub use crate::languages::{
    default_parse_config_for_language,
    ships_default_config,
    GoTypeDeclaration,
    PythonClassDefinition,
};
pub use crate::parse::{parse, parse_nodes};
pub use crate::render::block_like_to_string;
pub use crate::selector::{
    from_language,
    CustomRule,
    Indentation,
    Language,
    ParseConfig,
    ParseError,
    Selector,
    SelectorAction,
    TreeSitterConfig,
};
pub use crate::state::{Accumulator, KeyContent, ParseState, QueueItem};
pub use crate::tree::{RawNode, SyntaxNode, SyntaxTree};
