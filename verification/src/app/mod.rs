//! What the application decides: the status log, refreshes, the item list,
//! saved query management and the setup form. The window, the database and
//! the network are driven around these decisions.

pub mod status;
pub mod queries;
pub mod refresh;
pub mod status_icon;
pub mod view;
pub mod people;
pub mod relative_time;
pub mod setup;
pub mod manager;
pub mod stream;
pub mod session;
