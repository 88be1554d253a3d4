//! Client-side core of a university portal session: credential codecs, the
//! staged login state machine, and the session slot shared by all callers.
pub mod aescbc;
pub mod conwork;
pub mod guard;
pub mod login;
pub mod pagetext;
pub mod records;
pub mod scan;
pub mod semester;
pub mod textutil;
