//! A live-updating feed reader core: normalized feed entries, a de-duplicated
//! reverse-chronological merge store with cursor navigation, and the decision
//! logic of the poll/merge/navigate pipeline.

pub mod app;
pub mod item;
pub mod poll;
pub mod source;
pub mod text;

pub use app::App;
pub use app::NavCommand;
pub use poll::PollMsg;
pub use item::FeedItem;
pub use item::sort_items;
pub use source::RssSource;
