//! Media extraction for an extracted Twitter archive: locating the tweet data
//! files, reading their records, telling image tweets from video tweets, and
//! planning the listing or the downloads that follow.

pub mod classifier;
pub mod download;
pub mod error;
pub mod json;
pub mod listing;
pub mod locator;
pub mod parser;
pub mod run;
pub mod text;
pub mod timestamp;
