//! What travels through the registry: the requests that widgets serve and the answers that
//! go back to the callers' reply slots.

use crate::button::{ButtonMode, ButtonOp};
use crate::geometry::RibbonOrientation;
use crate::radiogroup::RadioGroupOp;
use crate::ribbon::RibbonOp;
use vstd::prelude::*;

verus! {

/// A request to a widget, by the kind of widget that serves it.
#[derive(Debug)]
pub enum Request {
    /// An operation of a button.
    Button(ButtonOp),
    /// An operation of a ribbon.
    Ribbon(RibbonOp),
    /// An operation of a radio group.
    RadioGroup(RadioGroupOp),
}

/// The answer to one request.
#[derive(Clone, Debug, PartialEq, Eq)]
pub enum Reply {
    /// The operation was applied and has nothing to report.
    Done,
    /// A button's mode.
    Mode(ButtonMode),
    /// A button's label.
    Label(String),
    /// The key of a click handler that was added.
    Handler(usize),
    /// A ribbon's orientation.
    Orientation(RibbonOrientation),
    /// The widget does not serve this request; nothing was changed.
    Unsupported,
}

/// An answer on its way to the reply slot of the request that it answers.
#[derive(Clone, Debug, PartialEq, Eq)]
pub struct Response {
    /// The reply slot that came with the request.
    pub reply_to: u64,
    /// The answer.
    pub reply: Reply,
}

/// The same items in the opposite order, so that popping yields the oldest first.
pub fn reversed<T>(items: Vec<T>) -> (turned: Vec<T>)
    ensures
        turned@.len() == items@.len(),
        forall|i: int| 0 <= i < turned@.len() ==> turned@[i] == items@[items@.len() - 1 - i],
{
    let mut items = items;
    let ghost all = items@;
    let mut turned: Vec<T> = Vec::new();
    while items.len() > 0
        invariant
            turned@.len() + items@.len() == all.len(),
            forall|i: int| 0 <= i < items@.len() ==> items@[i] == all[i],
            forall|i: int| 0 <= i < turned@.len() ==> turned@[i] == all[all.len() - 1 - i],
        decreases items@.len(),
    {
        match items.pop() {
            Some(item) => turned.push(item),
            None => {},
        }
    }
    turned
}

} // verus!
