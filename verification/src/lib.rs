//! Core of a civic issue-reporting service.
//!
//! Two parts stand side by side. The detection aggregator turns the boxes
//! that a vision classifier found in a photo into a few merged boxes and a
//! severity from zero to five. The broadcast hub carries every chat message
//! over one bounded channel to the subscribers of the message's group.
//! Around them stand the records of the service and what the handlers
//! compute on them.
//!
//! Numbers that are fractions elsewhere are fixed-point integers here:
//! coordinates of boxes are whole pixels, confidences and overlap ratios are
//! millionths, positions are ten-millionths of a degree.

pub mod geometry;
pub mod merge;
pub mod analysis;

pub mod message;
pub mod subscription;
pub mod hub;

pub mod clock;
pub mod ids;
pub mod records;
pub mod store;
pub mod firestore;
pub mod config;

pub mod seqs;
