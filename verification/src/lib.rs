//! View-model construction and rendering for a block-explorer block page.
//!
//! Given a block, its height, the chain's best height, and the inscriptions
//! found in the block, [`block::BlockHtml`] derives the display fields (hash,
//! proof-of-work target, timestamp, size, weight), the prev/next navigation
//! state, and renders the page, with the structure of the output pinned down
//! by contracts.

pub mod block;
pub mod digest;
pub mod hex;
pub mod num;
pub mod target;
pub mod timestamp;
pub mod types;
