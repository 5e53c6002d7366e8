//! Aggregation of image posts from several upstream platforms into one
//! schema, and the artwork embed resolver.
pub mod text;
pub mod post;
pub mod fetch;
pub mod timestamp;
pub mod tweet;
pub mod twitter_home;
pub mod twitter_honkai;
pub mod pixiv;
pub mod mihoyo_bbs;
pub mod bcy;
pub mod lofter;
pub mod embed;
pub mod site_routes;
pub mod config;

pub use embed::{EmbedAction, EmbedError, PixivId};
pub use post::{BlackList, FetchError, Post, PostSource, SourcesUrls};
