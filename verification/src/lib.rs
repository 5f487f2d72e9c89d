//! Block annotations for markdown event streams.
//!
//! A paragraph whose whole text is `{:.name}` opens a styled wrapper region and
//! one whose whole text is `{:/.name}` closes it. The crate recognises these
//! markers in a stream of events, tracks how deeply the regions are nested and
//! replaces each marker by the markup that opens or closes a `div`.

pub mod annotator;
pub mod document;
pub mod event;
pub mod laws;
pub mod marker;
pub mod markup;
pub mod nesting;
pub mod preprocessor;

pub use annotator::EventClassAnnotator;
pub use document::{blocky, BlockyError};
pub use event::DocEvent;
pub use marker::{classify, Marker, MIN_MARKER_LEN};
pub use markup::{close_div, open_div};
pub use nesting::{rewrite_event, NestingError, MAX_DEPTH};
pub use preprocessor::Blocky;
