pub mod classifier;
pub mod crawler;
pub mod extractor;
pub mod model;
pub mod parser;
pub mod text;
pub mod word_type;

pub use classifier::{aggregate_markers, BlockOutcome, Marker, MarkerKind};
pub use crawler::{DictionaryCambridgeExtractor, EnToViCrawler};
pub use extractor::{definition_from_parts, extract_with, Block, HTMLExtractor, SiteProfile};
pub use model::{Example, ExtractError, Meaning, WordDefinition, WordType, WordTypeDefinition};
pub use parser::{Element, Parser};
pub use text::join_split;
pub use word_type::Unrecognized;
