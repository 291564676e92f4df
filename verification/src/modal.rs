//! The message boxes the core reports its outcomes through: plain data that
//! the surrounding program displays.

use vstd::prelude::*;

verus! {

/// How severe a reported message is.
#[derive(Debug, Clone)]
pub enum ModalLevel {
    Error,
    Warning,
    Info,
    Success,
}

/// One message to display: a severity, a title, and the message body.
#[derive(Debug, Clone)]
pub struct ModalDisplay {
    pub level: ModalLevel,
    pub title: String,
    pub content: String,
}

} // verus!
