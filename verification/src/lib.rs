//! Verified core of a Shopware / Symfony Redis cache inspector.
//!
//! The library groups the keys of a cache by namespace and type, keeps
//! statistics and a leaderboard of the biggest keys, renders reports, decodes
//! values, plans the cleanup of orphaned cache tags, and runs the interactive
//! viewer as a state machine. It does no I/O: whoever owns the connection and
//! the terminal sends the commands it builds and paints the screens it
//! describes.

pub mod binary64;
pub mod cleanup;
pub mod connection;
pub mod get;
pub mod grouping;
pub mod insights;
pub mod inspect;
pub mod keylaws;
pub mod laws;
pub mod leaderboard;
pub mod moment;
pub mod names;
pub mod order;
pub mod report;
pub mod rows;
pub mod scanner;
pub mod runlaws;
pub mod screenlaws;
pub mod screens;
pub mod serverinfo;
pub mod stats;
pub mod text;
pub mod tui;
pub mod value;
