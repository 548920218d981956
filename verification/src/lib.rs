//! A retained-mode widget toolkit: buttons, ribbons and radio groups that talk to each
//! other through a registry of request queues.

pub mod button;
pub mod default_skin;
pub mod geometry;
pub mod handlers;
pub mod message;
pub mod radiogroup;
pub mod registry;
pub mod ribbon;
pub mod widget;
