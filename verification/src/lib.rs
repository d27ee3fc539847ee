//! The rules behind a small web server's sign-in: sessions, cookies, login
//! rate limits, user management and the guard in front of the API.

pub mod account;
pub mod change_password;
pub mod check;
pub mod cookie;
pub mod guard;
pub mod limit;
pub mod listing;
pub mod login;
pub mod password;
pub mod paths;
pub mod reply;
pub mod request;
pub mod session;
pub mod setup;
pub mod state;
pub mod store;
pub mod table;
pub mod text;
pub mod users;
