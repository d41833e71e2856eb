//! Planning, parsing and reporting for a minimal rtnetlink command line tool.

pub mod address_laws;
pub mod addresses;
pub mod args;
pub mod change;
pub mod command;
pub mod course;
pub mod error;
pub mod ip;
pub mod link_laws;
pub mod links;
pub mod mac;
pub mod message;
pub mod monitor;
pub mod neighbour_laws;
pub mod neighbours;
pub mod net;
pub mod number;
pub mod order;
pub mod outside;
pub mod pick;
pub mod report;
pub mod request_laws;
pub mod rows;
pub mod rule_laws;
pub mod rules;
pub mod step;
pub mod tap;
pub mod text;
pub mod text_laws;
pub mod v4;
pub mod v6;
pub mod v6_laws;
pub mod view_laws;
