//! A notification block for a status bar: it polls a paginated feed of
//! notifications, counts them by reason and shows the counts through a
//! format string.
//!
//! The library decides and the host acts. A poll is driven through
//! [`block::Github::update`], which takes an event and answers with the
//! request to perform or the time to wait; the library itself opens no
//! connection and reads no clock.
//!
//! - [`links`]: pagination link headers
//! - [`fetch`]: the stream of notifications over the page cursor
//! - [`trace`]: what such a stream yields, and the laws of pagination
//! - [`counts`]: the counts by reason and their total
//! - [`template`]: format strings and substitution
//! - [`render`]: the declared placeholders and their values
//! - [`block`]: configuration, construction and the poll cycle
//! - [`cycle`]: what a block shows after a whole poll
//! - [`strings`]: helpers on text

pub mod block;
pub mod counts;
pub mod cycle;
pub mod fetch;
pub mod links;
pub mod render;
pub mod strings;
pub mod template;
pub mod trace;
