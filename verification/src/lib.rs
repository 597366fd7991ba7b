//! Verified core of a source-tree indexer.
//!
//! The library decides which files of a directory walk are worth handing to
//! external code-indexer processes: exclusion of subtrees by substring,
//! a fast inclusion check on the file extension, a fallback inclusion check
//! on a probed content type, and the bookkeeping for the sink that feeds the
//! indexer processes.  All process and file-system work is left to the
//! embedding program; the library works on the textual renderings of paths.

pub mod crawler;
pub mod driver;
pub mod options;
pub mod registry;
pub mod sink;
pub mod text;

pub use crawler::FileCrawler;
pub use crawler::PathKind;
pub use crawler::VisitAction;
pub use driver::Driver;
pub use driver::FileDriver;
pub use driver::GenericDriver;
pub use driver::MimeDriver;
pub use options::make_excludes;
pub use options::parse_jobs;
pub use registry::Classification;
pub use registry::DriverEntry;
pub use registry::DriverList;
pub use sink::LineWrite;
pub use sink::SinkError;
pub use sink::TagFileCreator;
