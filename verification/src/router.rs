pub mod channels;
pub mod external;
pub mod internal;
pub mod message_router;
pub mod messages;
pub mod post_offices;
pub mod traits;
