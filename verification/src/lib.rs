//! Decision logic of a collaborative notebook service: text scanning for the
//! code sandbox, token claims, role resolution, block ordering and the
//! per-notebook synchronisation state.

pub mod clock;
pub mod email;
pub mod error;
pub mod ids;
pub mod invitation;
pub mod jwt;
pub mod notebook;
pub mod oauth;
pub mod password;
pub mod permissions;
pub mod sandbox;
pub mod storage;
pub mod sync;
pub mod team;
pub mod text;
pub mod user;
