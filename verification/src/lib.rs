//! Planning and formatting logic for a slideshow-style video production
//! tool: natural-order file naming, asset matching and encoder command
//! construction, and subtitle post-processing.
//!
//! The library never touches the file system and starts no program. A
//! caller lists directories, runs the encoder and the speech engine, and
//! hands what it found to the functions here, which decide what is done.

pub mod audio;
pub mod batch;
pub mod encode;
pub mod error;
pub mod models;
pub mod names;
pub mod natural;
pub mod organize;
pub mod requests;
pub mod stitch;
pub mod style;
pub mod subtitle;
pub mod text;

pub use batch::{generate_subtitles_batch, SubtitleBatchItem};
pub use error::{ErrorKind, PipelineError};
pub use names::DirectoryListing;
pub use organize::{batch_rename, batch_rename_for_kind, AssetKind, RenameOutcome, RenamePattern};
pub use stitch::{stitch_assets, StitchJobResult, StitchOptions, VideoCodec};
pub use style::SubtitleBurnStyle;
pub use subtitle::{SubtitleGenerationOptions, SubtitleScript, SubtitleSegment};
