//! Guild raid administration: the interactive session engine (sessions,
//! yes/no confirmations, toggle selections driven by reaction markers) and
//! the plain data and rules around it.

pub mod marker;
pub mod session;
pub mod confirmation;
pub mod selection;
pub mod roles;

pub mod text;
pub mod order;
pub mod models;
pub mod commands;
pub mod reply;
pub mod signup;
pub mod tiers;
pub mod calendar;
pub mod board;
pub mod raid_commands;
