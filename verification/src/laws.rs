//! What the operations promise their callers, said of what is handed to them and of what comes
//! back.
pub mod basics;
pub mod control;
pub mod images;
pub mod kbs;
pub mod merging;
pub mod trustee;
pub mod values;
