//! The button: three interaction modes, a pointer state machine, a table of click handlers
//! and a control surface that other code reaches through the registry.

use crate::geometry::Rect;
use crate::handlers::{
    add_to_indexmap, entries, handler_tokens, has_key, has_room, is_rising, map_new, next_key,
    remove_from_indexmap, rising, tokens, without_key,
};
use crate::message::{reversed, Reply, Request, Response};
use crate::registry::{emptied, posted, waiting, Envelope, Registry, SendError, ServiceId};
use indexmap::IndexMap;
use vstd::prelude::*;

verus! {

/// The pointer button that an event reports.
#[derive(Clone, Copy, Debug, PartialEq, Eq, Structural)]
pub enum MouseButton {
    /// The primary button: the only one that buttons react to.
    Left,
    /// The secondary button.
    Right,
    /// The wheel button.
    Middle,
    /// Any further button, by its number.
    Other(u16),
}

/// How a button reacts to a click.
#[derive(Clone, Copy, Debug, PartialEq, Eq, Structural)]
pub enum ButtonMode {
    /// Momentary: a click fires the handlers and leaves no state behind.
    PressButton,
    /// A click flips the check mark.
    Checkbox(bool),
    /// A click flips the selection; a radio group clears the others.
    Radio(bool),
}

impl Default for ButtonMode {
    fn default() -> (mode: ButtonMode)
        ensures
            mode == ButtonMode::PressButton,
    {
        ButtonMode::PressButton
    }
}

impl ButtonMode {
    /// The mode after one click: check marks and selections flip, a press button stays.
    pub open spec fn toggled(self) -> ButtonMode {
        match self {
            ButtonMode::PressButton => ButtonMode::PressButton,
            ButtonMode::Checkbox(checked) => ButtonMode::Checkbox(!checked),
            ButtonMode::Radio(selected) => ButtonMode::Radio(!selected),
        }
    }

    /// The mode after one click.
    pub fn toggle(self) -> (mode: ButtonMode)
        ensures
            mode == self.toggled(),
    {
        match self {
            ButtonMode::PressButton => ButtonMode::PressButton,
            ButtonMode::Checkbox(checked) => ButtonMode::Checkbox(!checked),
            ButtonMode::Radio(selected) => ButtonMode::Radio(!selected),
        }
    }
}

/// What a skin needs to know to show a button.
#[derive(Debug)]
pub struct ButtonState {
    /// The interaction mode, with its check mark or selection.
    pub mode: ButtonMode,
    /// The pointer went down on the button and has not come up yet.
    pub touched: bool,
    /// The text on the button.
    pub label: String,
    /// The screen rectangle that the button covers.
    pub rect: Rect,
}

impl Default for ButtonState {
    fn default() -> (state: ButtonState)
        ensures
            state.mode == ButtonMode::PressButton,
            !state.touched,
            state.label@ == Seq::<char>::empty(),
            state.rect == (Rect { x: 0, y: 0, w: 0, h: 0 }),
    {
        ButtonState {
            mode: ButtonMode::PressButton,
            touched: false,
            label: String::new(),
            rect: Rect { x: 0, y: 0, w: 0, h: 0 },
        }
    }
}

impl Clone for ButtonState {
    fn clone(&self) -> (copy: ButtonState)
        ensures
            copy == *self,
    {
        ButtonState {
            mode: self.mode,
            touched: self.touched,
            label: self.label.clone(),
            rect: self.rect,
        }
    }
}

/// The pluggable look of a button: it receives a snapshot of the button's state on every
/// frame and answers hit tests against the last snapshot.
pub trait ButtonSkin {
    /// The snapshot that the skin shows.
    spec fn shown(&self) -> ButtonState;

    /// The point lies in the area that reacts to the pointer.
    spec fn hot(&self, x: int, y: int) -> bool;

    /// Takes over a snapshot of the button's state.
    fn set_state(&mut self, state: &ButtonState)
        ensures
            final(self).shown() == *state,
    ;

    /// Whether the point lies in the area that reacts to the pointer.
    fn is_hot_area(&self, x: i32, y: i32) -> (hot: bool)
        ensures
            hot == self.hot(x as int, y as int),
    ;
}

/// One handler that a click has fired.
#[derive(Clone, Copy, Debug, PartialEq, Eq, Structural)]
pub struct Click {
    /// The button that was clicked.
    pub source: ServiceId,
    /// The button's mode after the click.
    pub mode: ButtonMode,
    /// The token of the handler to run.
    pub token: u64,
}

/// The clicks that fire when a button with these handlers is clicked: one for each
/// handler, in the order in which they were added.
pub open spec fn clicks_of(source: ServiceId, mode: ButtonMode, pairs: Seq<(usize, u64)>) -> Seq<
    Click,
> {
    Seq::new(pairs.len(), |i: int| (Click { source, mode, token: pairs[i].1 }))
}

/// An operation of a button's control surface.
#[derive(Debug)]
pub enum ButtonOp {
    /// Asks for the mode.
    GetMode,
    /// Sets the mode.
    SetMode(ButtonMode),
    /// Asks for the label.
    GetLabel,
    /// Sets the label.
    SetLabel(String),
    /// Adds the click handler with the given token.
    OnClick(u64),
    /// Removes the click handler with the given key.
    RemoveOnClick(usize),
}

/// The button's state after one operation.
pub open spec fn state_after(state: ButtonState, op: ButtonOp) -> ButtonState {
    match op {
        ButtonOp::SetMode(mode) => ButtonState { mode, ..state },
        ButtonOp::SetLabel(label) => ButtonState { label, ..state },
        _ => state,
    }
}

/// The button's handlers after one operation. A table whose keys are used up takes no
/// further handler.
pub open spec fn handlers_after(pairs: Seq<(usize, u64)>, op: ButtonOp) -> Seq<(usize, u64)> {
    match op {
        ButtonOp::OnClick(token) => if next_key(pairs) <= usize::MAX {
            pairs.push((next_key(pairs) as usize, token))
        } else {
            pairs
        },
        ButtonOp::RemoveOnClick(key) => without_key(pairs, key),
        _ => pairs,
    }
}

/// The answer to one operation.
pub open spec fn reply_for(state: ButtonState, pairs: Seq<(usize, u64)>, op: ButtonOp) -> Reply {
    match op {
        ButtonOp::GetMode => Reply::Mode(state.mode),
        ButtonOp::GetLabel => Reply::Label(state.label),
        ButtonOp::OnClick(token) => if next_key(pairs) <= usize::MAX {
            Reply::Handler(next_key(pairs) as usize)
        } else {
            Reply::Unsupported
        },
        _ => Reply::Done,
    }
}

/// A button's state, handlers and answers after the requests of one frame.
pub struct Served {
    /// The state after the last request.
    pub state: ButtonState,
    /// The handlers after the last request.
    pub pairs: Seq<(usize, u64)>,
    /// One answer for each request, in the order of the requests.
    pub replies: Seq<Response>,
}

/// Serves one request: a button operation is applied and answered, any other request is
/// answered as unsupported.
pub open spec fn serve_one(before: Served, envelope: Envelope<Request>) -> Served {
    match envelope.request {
        Request::Button(op) => Served {
            state: state_after(before.state, op),
            pairs: handlers_after(before.pairs, op),
            replies: before.replies.push(
                Response {
                    reply_to: envelope.reply_to,
                    reply: reply_for(before.state, before.pairs, op),
                },
            ),
        },
        _ => Served {
            replies: before.replies.push(
                Response { reply_to: envelope.reply_to, reply: Reply::Unsupported },
            ),
            ..before
        },
    }
}

/// Serves the requests one after the other, oldest first.
pub open spec fn serve_all(state: ButtonState, pairs: Seq<(usize, u64)>, requests: Seq<
    Envelope<Request>,
>) -> Served
    decreases requests.len(),
{
    if requests.len() == 0 {
        Served { state, pairs, replies: Seq::empty() }
    } else {
        serve_one(serve_all(state, pairs, requests.drop_last()), requests.last())
    }
}

/// The handle by which other code reaches one button.
#[derive(Clone, Copy, Debug, PartialEq, Eq, Structural)]
pub struct ButtonId(pub ServiceId);

impl From<ButtonId> for ServiceId {
    /// The registry handle behind a button handle.
    fn from(v: ButtonId) -> (id: ServiceId) {
        v.0
    }
}

impl vstd::std_specs::convert::FromSpecImpl<ButtonId> for ServiceId {
    open spec fn obeys_from_spec() -> bool {
        true
    }

    open spec fn from_spec(v: ButtonId) -> ServiceId {
        v.0
    }
}

impl ButtonId {
    /// The registry handle behind this button handle.
    pub fn srv_id(self) -> (id: ServiceId)
        ensures
            id == self.0,
    {
        self.0
    }

    /// Enqueues one operation for the button.
    fn request(self, registry: &mut Registry<Request>, reply_to: u64, op: ButtonOp) -> (sent:
        Result<(), SendError>)
        ensures
            final(registry).delivered(
                old(registry),
                self.0,
                (Envelope { reply_to, request: Request::Button(op) }),
                sent,
            ),
    {
        registry.send(self.0, reply_to, Request::Button(op))
    }

    /// Asks the button for its mode; the answer arrives in the reply slot.
    pub fn get_mode(self, registry: &mut Registry<Request>, reply_to: u64) -> (sent: Result<
        (),
        SendError,
    >)
        ensures
            final(registry).delivered(
                old(registry),
                self.0,
                (Envelope { reply_to, request: Request::Button(ButtonOp::GetMode) }),
                sent,
            ),
    {
        self.request(registry, reply_to, ButtonOp::GetMode)
    }

    /// Asks the button to take the mode.
    pub fn set_mode(self, registry: &mut Registry<Request>, reply_to: u64, mode: ButtonMode) -> (sent:
        Result<(), SendError>)
        ensures
            final(registry).delivered(
                old(registry),
                self.0,
                (Envelope { reply_to, request: Request::Button(ButtonOp::SetMode(mode)) }),
                sent,
            ),
    {
        self.request(registry, reply_to, ButtonOp::SetMode(mode))
    }

    /// Asks the button for its label; the answer arrives in the reply slot.
    pub fn get_label(self, registry: &mut Registry<Request>, reply_to: u64) -> (sent: Result<
        (),
        SendError,
    >)
        ensures
            final(registry).delivered(
                old(registry),
                self.0,
                (Envelope { reply_to, request: Request::Button(ButtonOp::GetLabel) }),
                sent,
            ),
    {
        self.request(registry, reply_to, ButtonOp::GetLabel)
    }

    /// Asks the button to take the label.
    pub fn set_label(self, registry: &mut Registry<Request>, reply_to: u64, label: String) -> (sent:
        Result<(), SendError>)
        ensures
            final(registry).delivered(
                old(registry),
                self.0,
                (Envelope { reply_to, request: Request::Button(ButtonOp::SetLabel(label)) }),
                sent,
            ),
    {
        self.request(registry, reply_to, ButtonOp::SetLabel(label))
    }

    /// Asks the button to add a click handler; its key arrives in the reply slot.
    pub fn on_click(self, registry: &mut Registry<Request>, reply_to: u64, token: u64) -> (sent:
        Result<(), SendError>)
        ensures
            final(registry).delivered(
                old(registry),
                self.0,
                (Envelope { reply_to, request: Request::Button(ButtonOp::OnClick(token)) }),
                sent,
            ),
    {
        self.request(registry, reply_to, ButtonOp::OnClick(token))
    }

    /// Asks the button to drop the click handler with the key.
    pub fn remove_on_click(
        self,
        registry: &mut Registry<Request>,
        reply_to: u64,
        handler_id: usize,
    ) -> (sent: Result<(), SendError>)
        ensures
            final(registry).delivered(
                old(registry),
                self.0,
                (Envelope { reply_to, request: Request::Button(ButtonOp::RemoveOnClick(handler_id)), }),
                sent,
            ),
    {
        self.request(registry, reply_to, ButtonOp::RemoveOnClick(handler_id))
    }
}

/// A button with its skin, its registry handle and its click handlers.
#[derive(Debug)]
pub struct Button<S> {
    state: ButtonState,
    skin: S,
    id: ServiceId,
    on_click_handlers: IndexMap<usize, u64>,
}

impl<S: ButtonSkin> Button<S> {
    /// The button's state.
    pub closed spec fn state(&self) -> ButtonState {
        self.state
    }

    /// The button's skin.
    pub closed spec fn skin(&self) -> S {
        self.skin
    }

    /// The button's registry handle.
    pub closed spec fn handle(&self) -> ServiceId {
        self.id
    }

    /// The click handlers: key and token, in the order in which they were added.
    pub closed spec fn handlers(&self) -> Seq<(usize, u64)> {
        entries(self.on_click_handlers)
    }

    /// The handler keys rise along the table.
    pub open spec fn wf(&self) -> bool {
        rising(self.handlers())
    }

    /// Whether the handler keys rise along the table.
    pub fn is_wf(&self) -> (ok: bool)
        ensures
            ok == self.wf(),
    {
        is_rising(&self.on_click_handlers)
    }

    /// A press button without label or handlers, registered under a handle of its own.
    pub fn new<R>(registry: &mut Registry<R>, skin: S) -> (button: Self)
        ensures
            button.wf(),
            button.state().mode == ButtonMode::PressButton,
            !button.state().touched,
            button.state().label@ == Seq::<char>::empty(),
            button.state().rect == (Rect { x: 0, y: 0, w: 0, h: 0 }),
            button.handlers() == Seq::<(usize, u64)>::empty(),
            button.skin() == skin,
            !old(registry).issued(button.handle()),
            !old(registry).is_live(button.handle()),
            forall|any: ServiceId|
                final(registry).issued(any) == (old(registry).issued(any) || any == button.handle()),
            final(registry)@ == old(registry)@.insert(button.handle(), Seq::empty()),
    {
        let id = registry.register();
        Button { state: ButtonState::default(), skin, id, on_click_handlers: map_new() }
    }

    /// The handle by which other code reaches this button.
    pub fn id(&self) -> (id: ButtonId)
        ensures
            id == ButtonId(self.handle()),
    {
        ButtonId(self.id)
    }

    /// Sets the mode.
    pub fn set_mode(&mut self, mode: ButtonMode)
        ensures
            final(self).state() == (ButtonState { mode, ..old(self).state() }),
            final(self).handlers() == old(self).handlers(),
            final(self).handle() == old(self).handle(),
            final(self).skin() == old(self).skin(),
    {
        self.state.mode = mode
    }

    /// The mode.
    pub fn get_mode(&self) -> (mode: ButtonMode)
        ensures
            mode == self.state().mode,
    {
        self.state.mode
    }

    /// Sets the label.
    pub fn set_label(&mut self, label: String)
        ensures
            final(self).state() == (ButtonState { label, ..old(self).state() }),
            final(self).handlers() == old(self).handlers(),
            final(self).handle() == old(self).handle(),
            final(self).skin() == old(self).skin(),
    {
        self.state.label = label
    }

    /// The label.
    pub fn get_label(&self) -> (label: &str)
        ensures
            label@ == self.state().label@,
    {
        self.state.label.as_str()
    }

    /// The button's skin, with the snapshot that it shows.
    pub fn get_skin(&self) -> (skin: &S)
        ensures
            *skin == self.skin(),
    {
        &self.skin
    }

    /// Whether the pointer went down on the button and has not come up yet.
    pub fn is_touched(&self) -> (touched: bool)
        ensures
            touched == self.state().touched,
    {
        self.state.touched
    }

    /// The tokens of the click handlers, in the order in which they were added.
    pub fn click_tokens(&self) -> (fired: Vec<u64>)
        ensures
            fired@ == tokens(self.handlers()),
    {
        handler_tokens(&self.on_click_handlers)
    }

    /// Whether one more click handler can be added.
    pub fn has_handler_room(&self) -> (room: bool)
        ensures
            room == (next_key(self.handlers()) <= usize::MAX),
    {
        has_room(&self.on_click_handlers)
    }

    /// Adds a click handler behind the others and returns its key, which no other live
    /// handler of this button has.
    pub fn on_click_box(&mut self, handler: u64) -> (key: usize)
        requires
            old(self).wf(),
            next_key(old(self).handlers()) <= usize::MAX,
        ensures
            final(self).wf(),
            key == next_key(old(self).handlers()),
            !has_key(old(self).handlers(), key),
            final(self).handlers() == old(self).handlers().push((key, handler)),
            final(self).state() == old(self).state(),
            final(self).handle() == old(self).handle(),
            final(self).skin() == old(self).skin(),
    {
        add_to_indexmap(&mut self.on_click_handlers, handler)
    }

    /// Adds a click handler behind the others and returns its key.
    pub fn on_click(&mut self, handler: u64) -> (key: usize)
        requires
            old(self).wf(),
            next_key(old(self).handlers()) <= usize::MAX,
        ensures
            final(self).wf(),
            key == next_key(old(self).handlers()),
            !has_key(old(self).handlers(), key),
            final(self).handlers() == old(self).handlers().push((key, handler)),
            final(self).state() == old(self).state(),
            final(self).handle() == old(self).handle(),
            final(self).skin() == old(self).skin(),
    {
        self.on_click_box(handler)
    }

    /// Drops the click handler with the key; the others keep their keys and their order.
    /// An unknown key changes nothing.
    pub fn remove_on_click(&mut self, handler_id: usize)
        requires
            old(self).wf(),
        ensures
            final(self).wf(),
            final(self).handlers() == without_key(old(self).handlers(), handler_id),
            !has_key(final(self).handlers(), handler_id),
            final(self).state() == old(self).state(),
            final(self).handle() == old(self).handle(),
            final(self).skin() == old(self).skin(),
    {
        remove_from_indexmap(&mut self.on_click_handlers, handler_id)
    }

    /// The button's registry handle.
    pub fn srv_id(&self) -> (id: ServiceId)
        ensures
            id == self.handle(),
    {
        self.id
    }

    /// Moves the button to a screen rectangle.
    pub fn set_rect(&mut self, rect: Rect)
        ensures
            final(self).state() == (ButtonState { rect, ..old(self).state() }),
            final(self).handlers() == old(self).handlers(),
            final(self).handle() == old(self).handle(),
            final(self).skin() == old(self).skin(),
    {
        self.state.rect = rect;
    }

    /// The screen rectangle that the button covers.
    pub fn get_rect(&self) -> (rect: Rect)
        ensures
            rect == self.state().rect,
    {
        self.state.rect
    }

    /// Applies one operation of the control surface and answers it.
    pub fn serve(&mut self, op: ButtonOp) -> (reply: Reply)
        requires
            old(self).wf(),
        ensures
            final(self).wf(),
            final(self).state() == state_after(old(self).state(), op),
            final(self).handlers() == handlers_after(old(self).handlers(), op),
            reply == reply_for(old(self).state(), old(self).handlers(), op),
            final(self).handle() == old(self).handle(),
            final(self).skin() == old(self).skin(),
    {
        match op {
            ButtonOp::GetMode => Reply::Mode(self.get_mode()),
            ButtonOp::SetMode(mode) => {
                self.set_mode(mode);
                Reply::Done
            },
            ButtonOp::GetLabel => Reply::Label(self.state.label.clone()),
            ButtonOp::SetLabel(label) => {
                self.set_label(label);
                Reply::Done
            },
            ButtonOp::OnClick(handler) => {
                if self.has_handler_room() {
                    Reply::Handler(self.on_click_box(handler))
                } else {
                    Reply::Unsupported
                }
            },
            ButtonOp::RemoveOnClick(handler_id) => {
                self.remove_on_click(handler_id);
                Reply::Done
            },
        }
    }

    /// This is the button `before` after its per-frame step on the given queues: it has
    /// served what waited for it, oldest first, its queue is empty, and its skin shows the
    /// new state.
    pub open spec fn stepped_from(
        &self,
        before: &Self,
        queues: Map<ServiceId, Seq<Envelope<Request>>>,
        after: Map<ServiceId, Seq<Envelope<Request>>>,
        replies: Seq<Response>,
    ) -> bool {
        let served = serve_all(before.state(), before.handlers(), waiting(queues, before.handle()));
        &&& self.state() == served.state
        &&& self.handlers() == served.pairs
        &&& replies == served.replies
        &&& self.skin().shown() == self.state()
        &&& self.handle() == before.handle()
        &&& after == emptied(queues, before.handle())
    }

    /// The per-frame step: serves every request that waits for this button, oldest first,
    /// answers each exactly once, and hands the skin a snapshot of the new state.
    pub fn update(&mut self, registry: &mut Registry<Request>) -> (replies: Vec<Response>)
        requires
            old(self).wf(),
        ensures
            final(self).wf(),
            final(self).stepped_from(old(self), old(registry)@, final(registry)@, replies@),
            forall|any: ServiceId| final(registry).issued(any) == old(registry).issued(any),
    {
        let mut rest = reversed(registry.drain(self.id));
        let ghost all = old(registry).pending(old(self).handle());
        let mut replies: Vec<Response> = Vec::new();
        let n = rest.len();
        let mut served: usize = 0;
        while rest.len() > 0
            invariant
                self.wf(),
                self.id == old(self).id,
                self.skin == old(self).skin,
                n == all.len(),
                served + rest@.len() == n,
                forall|i: int|
                    0 <= i < rest@.len() ==> rest@[i] == all[all.len() - 1 - i],
                serve_all(old(self).state(), old(self).handlers(), all.take(served as int)) == (
                    Served { state: self.state(), pairs: self.handlers(), replies: replies@ }
                ),
            decreases rest@.len(),
        {
            match rest.pop() {
                Some(envelope) => {
                    assert(envelope == all[served as int]);
                    assert(all.take(served + 1).drop_last() =~= all.take(served as int));
                    assert(all.take(served + 1).last() == envelope);
                    let reply_to = envelope.reply_to;
                    let reply = match envelope.request {
                        Request::Button(op) => self.serve(op),
                        _ => Reply::Unsupported,
                    };
                    replies.push(Response { reply_to, reply });
                    served += 1;
                },
                None => {},
            }
        }
        assert(all.take(n as int) =~= all);
        self.skin.set_state(&self.state);
        replies
    }

    /// This is the button `before` but for its state.
    pub open spec fn same_but_state(&self, before: &Self) -> bool {
        &&& self.handlers() == before.handlers()
        &&& self.handle() == before.handle()
        &&& self.skin() == before.skin()
    }

    /// This is the button `before` after the pointer went down: it is touched if it was
    /// touched before or the primary button went down in the skin's hot area.
    pub open spec fn pressed_from(&self, before: &Self, button: MouseButton, x: int, y: int) -> bool {
        &&& self.same_but_state(before)
        &&& self.state() == (ButtonState {
            touched: before.state().touched || (button == MouseButton::Left && before.skin().hot(
                x,
                y,
            )),
            ..before.state()
        })
    }

    /// This is the button `before` after the pointer came up: the primary button releases
    /// it, and a click flips the mode where it can.
    pub open spec fn released_from(&self, before: &Self, button: MouseButton, x: int, y: int) -> bool {
        &&& self.same_but_state(before)
        &&& self.state() == (ButtonState {
            touched: before.state().touched && button != MouseButton::Left,
            mode: if before.clicked_by(button, x, y) {
                before.state().mode.toggled()
            } else {
                before.state().mode
            },
            ..before.state()
        })
    }

    /// The clicks that fire when the pointer comes up: on a click one for each handler, in
    /// the order in which they were added, with the mode after the click; else none.
    pub open spec fn fires(&self, button: MouseButton, x: int, y: int) -> Seq<Click> {
        if self.clicked_by(button, x, y) {
            clicks_of(self.handle(), self.state().mode.toggled(), self.handlers())
        } else {
            Seq::<Click>::empty()
        }
    }

    /// This is the button `before`, moved to another rectangle.
    pub open spec fn resized_from(&self, before: &Self) -> bool {
        &&& self.same_but_state(before)
        &&& self.state() == (ButtonState { rect: self.state().rect, ..before.state() })
    }

    /// The pointer went down: the button is touched if the primary button went down in the
    /// skin's hot area.
    pub fn mouse_button_down_event(&mut self, button: MouseButton, x: i32, y: i32)
        ensures
            final(self).pressed_from(old(self), button, x as int, y as int),
    {
        if button == MouseButton::Left {
            if self.skin.is_hot_area(x, y) {
                self.state.touched = true;
            }
        }
    }

    /// The primary button comes up over the hot area of a touched button: a click.
    pub open spec fn clicked_by(&self, button: MouseButton, x: int, y: int) -> bool {
        button == MouseButton::Left && self.state().touched && self.skin().hot(x, y)
    }

    /// The pointer came up. The primary button releases a touched button; if it came up in
    /// the skin's hot area, that is a click: the mode flips where it can, and every
    /// handler fires once, in the order in which they were added, with the new mode.
    pub fn mouse_button_up_event(&mut self, button: MouseButton, x: i32, y: i32) -> (fired: Vec<
        Click,
    >)
        ensures
            final(self).released_from(old(self), button, x as int, y as int),
            fired@ == old(self).fires(button, x as int, y as int),
    {
        let mut fired: Vec<Click> = Vec::new();
        if button == MouseButton::Left {
            if self.state.touched {
                self.state.touched = false;
                if self.skin.is_hot_area(x, y) {
                    self.state.mode = self.state.mode.toggle();
                    let fired_tokens = handler_tokens(&self.on_click_handlers);
                    let n = fired_tokens.len();
                    let mut i: usize = 0;
                    while i < n
                        invariant
                            n == fired_tokens@.len(),
                            i <= n,
                            fired_tokens@ == tokens(self.handlers()),
                            fired@ == clicks_of(self.id, self.state.mode, self.handlers()).take(
                                i as int,
                            ),
                        decreases n - i,
                    {
                        fired.push(
                            Click { source: self.id, mode: self.state.mode, token: fired_tokens[i] },
                        );
                        i += 1;
                        assert(fired@ =~= clicks_of(
                            self.id,
                            self.state.mode,
                            self.handlers(),
                        ).take(i as int));
                    }
                    assert(fired@ =~= clicks_of(self.id, self.state.mode, self.handlers()));
                }
            }
        }
        fired
    }
}

/// Requests are served in the order in which they were sent: a request that is sent behind
/// others is served after them, on the state that they left.
pub proof fn lemma_served_in_send_order(
    state: ButtonState,
    pairs: Seq<(usize, u64)>,
    earlier: Seq<Envelope<Request>>,
    last: Envelope<Request>,
)
    ensures
        serve_all(state, pairs, earlier.push(last)) == serve_one(
            serve_all(state, pairs, earlier),
            last,
        ),
        serve_all(state, pairs, earlier.push(last)).replies.len() == earlier.len() + 1,
    decreases earlier.len(),
{
    assert(earlier.push(last).drop_last() =~= earlier);
    lemma_one_reply_each(state, pairs, earlier);
}

/// Every request is answered exactly once, in the reply slot that came with it.
pub proof fn lemma_one_reply_each(
    state: ButtonState,
    pairs: Seq<(usize, u64)>,
    requests: Seq<Envelope<Request>>,
)
    ensures
        serve_all(state, pairs, requests).replies.len() == requests.len(),
        forall|i: int|
            0 <= i < requests.len() ==> (#[trigger] serve_all(
                state,
                pairs,
                requests,
            ).replies[i]).reply_to == requests[i].reply_to,
    decreases requests.len(),
{
    if requests.len() > 0 {
        lemma_one_reply_each(state, pairs, requests.drop_last());
    }
}

/// A click: the primary button goes down and comes up in the hot area. A check box or radio
/// button flips, a press button keeps its mode, and every handler fires exactly once, in
/// the order in which it was added, with the mode after the click.
pub proof fn lemma_click_flips_and_fires<S: ButtonSkin>(
    idle: Button<S>,
    touched: Button<S>,
    released: Button<S>,
    down: (int, int),
    up: (int, int),
)
    requires
        idle.skin().hot(down.0, down.1),
        idle.skin().hot(up.0, up.1),
        touched.pressed_from(&idle, MouseButton::Left, down.0, down.1),
        released.released_from(&touched, MouseButton::Left, up.0, up.1),
    ensures
        released.state().mode == idle.state().mode.toggled(),
        idle.state().mode == ButtonMode::Checkbox(false) ==> released.state().mode
            == ButtonMode::Checkbox(true),
        idle.state().mode == ButtonMode::PressButton ==> released.state().mode
            == ButtonMode::PressButton,
        !released.state().touched,
        touched.fires(MouseButton::Left, up.0, up.1).len() == idle.handlers().len(),
        forall|i: int|
            0 <= i < idle.handlers().len() ==> #[trigger] touched.fires(
                MouseButton::Left,
                up.0,
                up.1,
            )[i] == (Click {
                source: idle.handle(),
                mode: released.state().mode,
                token: idle.handlers()[i].1,
            }),
{
}

/// A pointer that comes up outside the hot area releases the button and nothing more: the
/// mode stays and no handler fires.
pub proof fn lemma_release_outside_is_no_click<S: ButtonSkin>(
    touched: Button<S>,
    released: Button<S>,
    button: MouseButton,
    up: (int, int),
)
    requires
        !touched.skin().hot(up.0, up.1),
        released.released_from(&touched, button, up.0, up.1),
    ensures
        released.state().mode == touched.state().mode,
        touched.fires(button, up.0, up.1) == Seq::<Click>::empty(),
{
}

/// Whatever was served before, a mode that is set last stays.
pub proof fn lemma_last_mode_wins(
    state: ButtonState,
    pairs: Seq<(usize, u64)>,
    requests: Seq<Envelope<Request>>,
    mode: ButtonMode,
)
    requires
        requests.len() > 0,
        requests.last().request == Request::Button(ButtonOp::SetMode(mode)),
    ensures
        serve_all(state, pairs, requests).state.mode == mode,
{
}

/// Serving requests never moves the button.
pub proof fn lemma_serving_keeps_rect(
    state: ButtonState,
    pairs: Seq<(usize, u64)>,
    requests: Seq<Envelope<Request>>,
)
    ensures
        serve_all(state, pairs, requests).state.rect == state.rect,
        serve_all(state, pairs, requests).state.touched == state.touched,
    decreases requests.len(),
{
    if requests.len() > 0 {
        lemma_serving_keeps_rect(state, pairs, requests.drop_last());
    }
}

/// Requests that one sender sends to one button are served in the order in which they
/// were sent: of two labels sent one after the other the second stays, whatever waited for
/// the button before.
pub proof fn lemma_last_label_wins(
    state: ButtonState,
    pairs: Seq<(usize, u64)>,
    queues: Map<ServiceId, Seq<Envelope<Request>>>,
    id: ServiceId,
    first: Envelope<Request>,
    second: Envelope<Request>,
    a: String,
    b: String,
)
    requires
        queues.contains_key(id),
        first.request == Request::Button(ButtonOp::SetLabel(a)),
        second.request == Request::Button(ButtonOp::SetLabel(b)),
    ensures
        waiting(posted(posted(queues, id, first), id, second), id) == waiting(queues, id).push(
            first,
        ).push(second),
        serve_all(
            state,
            pairs,
            waiting(posted(posted(queues, id, first), id, second), id),
        ).state.label == b,
{
    lemma_served_in_send_order(state, pairs, waiting(queues, id).push(first), second);
}

/// A builder that configures a button step by step.
pub struct ButtonBuilder<S> {
    button: Button<S>,
}

impl<S: ButtonSkin> ButtonBuilder<S> {
    /// The button that the builder has made so far.
    pub closed spec fn button(&self) -> Button<S> {
        self.button
    }

    /// Starts from a fresh, registered press button.
    pub fn new<R>(registry: &mut Registry<R>, skin: S) -> (builder: Self)
        ensures
            builder.button().wf(),
            builder.button().state().mode == ButtonMode::PressButton,
            !builder.button().state().touched,
            builder.button().state().label@ == Seq::<char>::empty(),
            builder.button().state().rect == (Rect { x: 0, y: 0, w: 0, h: 0 }),
            builder.button().handlers() == Seq::<(usize, u64)>::empty(),
            builder.button().skin() == skin,
            !old(registry).issued(builder.button().handle()),
            !old(registry).is_live(builder.button().handle()),
            forall|any: ServiceId|
                final(registry).issued(any) == (old(registry).issued(any) || any == builder.button().handle()),
            final(registry)@ == old(registry)@.insert(builder.button().handle(), Seq::empty()),
    {
        ButtonBuilder { button: Button::new(registry, skin) }
    }

    /// Sets the mode.
    pub fn set_mode(self, mode: ButtonMode) -> (builder: Self)
        ensures
            builder.button().state() == (ButtonState { mode, ..self.button().state() }),
            builder.button().handlers() == self.button().handlers(),
            builder.button().handle() == self.button().handle(),
            builder.button().skin() == self.button().skin(),
    {
        let mut builder = self;
        builder.button.set_mode(mode);
        builder
    }

    /// Sets the label.
    pub fn set_label(self, label: String) -> (builder: Self)
        ensures
            builder.button().state() == (ButtonState { label, ..self.button().state() }),
            builder.button().handlers() == self.button().handlers(),
            builder.button().handle() == self.button().handle(),
            builder.button().skin() == self.button().skin(),
    {
        let mut builder = self;
        builder.button.set_label(label);
        builder
    }

    /// Adds a click handler behind the others.
    pub fn on_click(self, handler: u64) -> (builder: Self)
        requires
            self.button().wf(),
            next_key(self.button().handlers()) <= usize::MAX,
        ensures
            builder.button().wf(),
            builder.button().handlers() == self.button().handlers().push(
                (next_key(self.button().handlers()) as usize, handler),
            ),
            builder.button().state() == self.button().state(),
            builder.button().handle() == self.button().handle(),
            builder.button().skin() == self.button().skin(),
    {
        let mut builder = self;
        builder.button.on_click(handler);
        builder
    }

    /// The finished button.
    pub fn build(self) -> (button: Button<S>)
        ensures
            button == self.button(),
    {
        self.button
    }
}

} // verus!
