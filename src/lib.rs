//! One-way directory-tree mirroring: path mapping, exclusion filtering,
//! the tree walk, chunked file comparison and the per-file decisions of the
//! prune and mirror stages, each with its contract, and the laws a full run
//! obeys on a model of the two trees.
pub mod conf;
pub mod equality;
pub mod error;
pub mod merger;
pub mod path_map;
pub mod walk;

pub use conf::Conf;
pub use error::ConfError;
pub use merger::Merger;
