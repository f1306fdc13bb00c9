//! Body character counting for Genko Novel manuscripts, with the small
//! pieces of decision logic of the Genko language server and Zed extension.

pub mod documents;
pub mod extension;
pub mod hover;
pub mod laws;
pub mod markup;
pub mod novel;
pub mod segmentation;
pub mod server;
pub mod text;

pub use novel::{novel_metrics, NovelMetrics};
