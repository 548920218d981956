//! The widget tree and its one container, the ribbon: a row or a column of equal cells,
//! one for each child, in the order in which the children were added.

use crate::button::{lemma_serving_keeps_rect, Button, Click, MouseButton};
use crate::default_skin::DefaultButtonSkin;
use crate::geometry::{cell, cell_rect, lemma_cells_tile, along, near, Rect};
use crate::message::{reversed, Reply, Request, Response};
use crate::radiogroup::RadioGroup;
use crate::registry::{emptied, waiting, Envelope, Registry, SendError, ServiceId};
use vstd::prelude::*;

pub use crate::geometry::RibbonOrientation;

verus! {

/// A node of the widget tree: one of the widgets that the toolkit knows.
#[derive(Debug)]
pub enum WidgetNode {
    /// A button with the default skin.
    Button(Button<DefaultButtonSkin>),
    /// A container with its children.
    Ribbon(Ribbon),
    /// A radio group: it takes a cell and shows nothing.
    RadioGroup(RadioGroup),
}

/// A container that owns its children and shares its rectangle equally among them.
#[derive(Debug)]
pub struct Ribbon {
    widgets: Vec<WidgetNode>,
    rect: Rect,
    orientation: RibbonOrientation,
    id: ServiceId,
}

/// The handle by which other code reaches one ribbon.
#[derive(Clone, Copy, Debug, PartialEq, Eq, Structural)]
pub struct RibbonId(pub ServiceId);

/// An operation of a ribbon's control surface.
#[derive(Debug)]
pub enum RibbonOp {
    /// Adds the widget behind the other children.
    AddWidget(WidgetNode),
    /// Removes the first child with the handle, and destroys it.
    RemoveWidget(ServiceId),
    /// Turns the ribbon into a row or a column.
    SetOrientation(RibbonOrientation),
    /// Asks for the orientation.
    GetOrientation,
}

/// Each widget of `now` is the widget of `before` at the same place, moved to another
/// rectangle.
pub open spec fn each_resized(now: Seq<WidgetNode>, before: Seq<WidgetNode>) -> bool {
    &&& now.len() == before.len()
    &&& forall|i: int| 0 <= i < now.len() ==> (#[trigger] now[i]).resized_from(&before[i])
}

/// Each widget of `now` is the widget of `before` at the same place after the pointer went
/// down.
pub open spec fn each_pressed(
    now: Seq<WidgetNode>,
    before: Seq<WidgetNode>,
    button: MouseButton,
    x: int,
    y: int,
) -> bool {
    &&& now.len() == before.len()
    &&& forall|i: int|
        0 <= i < now.len() ==> (#[trigger] now[i]).pressed_from(&before[i], button, x, y)
}

/// Each widget of `now` is the widget of `before` at the same place after the pointer came
/// up.
pub open spec fn each_released(
    now: Seq<WidgetNode>,
    before: Seq<WidgetNode>,
    button: MouseButton,
    x: int,
    y: int,
) -> bool {
    &&& now.len() == before.len()
    &&& forall|i: int|
        0 <= i < now.len() ==> (#[trigger] now[i]).released_from(&before[i], button, x, y)
}

/// The place of the first widget with the handle, or the length where there is none.
pub open spec fn first_with(widgets: Seq<WidgetNode>, id: ServiceId) -> int
    decreases widgets.len(),
{
    if widgets.len() == 0 {
        0
    } else if widgets[0].handle() == id {
        0
    } else {
        1 + first_with(widgets.drop_first(), id)
    }
}

/// The widgets without the first one that has the handle.
pub open spec fn without_first(widgets: Seq<WidgetNode>, id: ServiceId) -> Seq<WidgetNode> {
    if first_with(widgets, id) < widgets.len() {
        widgets.remove(first_with(widgets, id))
    } else {
        widgets
    }
}

/// The first place with the handle lies in the sequence or at its end, holds the handle,
/// and no place before it does.
pub proof fn lemma_first_with(widgets: Seq<WidgetNode>, id: ServiceId)
    ensures
        0 <= first_with(widgets, id) <= widgets.len(),
        first_with(widgets, id) < widgets.len() ==> widgets[first_with(widgets, id)].handle() == id,
        forall|i: int| 0 <= i < first_with(widgets, id) ==> (#[trigger] widgets[i]).handle() != id,
    decreases widgets.len(),
{
    if widgets.len() > 0 && widgets[0].handle() != id {
        let rest = widgets.drop_first();
        lemma_first_with(rest, id);
        assert forall|i: int| 0 <= i < first_with(widgets, id) implies (#[trigger] widgets[i]).handle()
            != id by {
            if i > 0 {
                assert(widgets[i] == rest[i - 1]);
            }
        }
    }
}

/// A ribbon's orientation and children, the registry's queues and the ribbon's answers
/// after the requests of one frame. The children stand as they were handed over: where
/// they lie on the screen follows from the ribbon's rectangle.
pub struct Bookkept {
    /// The orientation after the last request.
    pub orientation: RibbonOrientation,
    /// The children after the last request.
    pub children: Seq<WidgetNode>,
    /// The queues after the last request.
    pub queues: Map<ServiceId, Seq<Envelope<Request>>>,
    /// One answer for each request, in the order of the requests.
    pub replies: Seq<Response>,
}

/// The queues after the first child with the handle was destroyed with everything below
/// it; unchanged where no child has the handle.
pub open spec fn released(
    queues: Map<ServiceId, Seq<Envelope<Request>>>,
    children: Seq<WidgetNode>,
    id: ServiceId,
) -> Map<ServiceId, Seq<Envelope<Request>>> {
    if first_with(children, id) < children.len() {
        queues.remove_keys(children[first_with(children, id)].handles())
    } else {
        queues
    }
}

/// Serves one request to a ribbon: a ribbon operation is applied and answered, any other
/// request is answered as unsupported. A widget that is not well formed is turned away and
/// destroyed.
pub open spec fn bookkeep_one(before: Bookkept, envelope: Envelope<Request>) -> Bookkept {
    let done = before.replies.push(Response { reply_to: envelope.reply_to, reply: Reply::Done });
    let unsupported = before.replies.push(
        Response { reply_to: envelope.reply_to, reply: Reply::Unsupported },
    );
    match envelope.request {
        Request::Ribbon(RibbonOp::AddWidget(widget)) => if widget.wf() {
            Bookkept { children: before.children.push(widget), replies: done, ..before }
        } else {
            Bookkept {
                queues: before.queues.remove_keys(widget.handles()),
                replies: unsupported,
                ..before
            }
        },
        Request::Ribbon(RibbonOp::RemoveWidget(id)) => Bookkept {
            children: without_first(before.children, id),
            queues: released(before.queues, before.children, id),
            replies: done,
            ..before
        },
        Request::Ribbon(RibbonOp::SetOrientation(orientation)) => Bookkept {
            orientation,
            replies: done,
            ..before
        },
        Request::Ribbon(RibbonOp::GetOrientation) => Bookkept {
            replies: before.replies.push(
                Response {
                    reply_to: envelope.reply_to,
                    reply: Reply::Orientation(before.orientation),
                },
            ),
            ..before
        },
        _ => Bookkept { replies: unsupported, ..before },
    }
}

/// Serves the requests one after the other, oldest first.
pub open spec fn bookkeep_all(
    orientation: RibbonOrientation,
    children: Seq<WidgetNode>,
    queues: Map<ServiceId, Seq<Envelope<Request>>>,
    requests: Seq<Envelope<Request>>,
) -> Bookkept
    decreases requests.len(),
{
    if requests.len() == 0 {
        Bookkept { orientation, children, queues, replies: Seq::empty() }
    } else {
        bookkeep_one(
            bookkeep_all(orientation, children, queues, requests.drop_last()),
            requests.last(),
        )
    }
}

/// Widgets that were only moved have the handles that they had, so the first of them with
/// a given handle stands at the same place, and destroying it frees the same handles.
pub proof fn lemma_moved_keep_handles(now: Seq<WidgetNode>, before: Seq<WidgetNode>, id: ServiceId)
    requires
        each_resized(now, before),
    ensures
        first_with(now, id) == first_with(before, id),
        forall|i: int|
            0 <= i < now.len() ==> (#[trigger] now[i]).handles() == before[i].handles()
                && now[i].handle() == before[i].handle(),
        each_resized(without_first(now, id), without_first(before, id)),
    decreases now.len(),
{
    assert forall|i: int| 0 <= i < now.len() implies (#[trigger] now[i]).handles()
        == before[i].handles() && now[i].handle() == before[i].handle() by {
        now[i].lemma_resized_keeps_handles(&before[i]);
    }
    if now.len() > 0 {
        assert(now[0].handle() == before[0].handle());
        if now[0].handle() != id {
            let rest = now.drop_first();
            let rest_before = before.drop_first();
            assert forall|i: int| 0 <= i < rest.len() implies (#[trigger] rest[i]).resized_from(
                &rest_before[i],
            ) by {
                assert(rest[i] == now[i + 1]);
                assert(rest_before[i] == before[i + 1]);
            }
            lemma_moved_keep_handles(rest, rest_before, id);
        }
    }
    lemma_first_with(now, id);
    let at = first_with(now, id);
    if at < now.len() {
        let cut = now.remove(at);
        let cut_before = before.remove(at);
        assert forall|i: int| 0 <= i < cut.len() implies (#[trigger] cut[i]).resized_from(
            &cut_before[i],
        ) by {
            if i < at {
                assert(cut[i] == now[i] && cut_before[i] == before[i]);
            } else {
                assert(cut[i] == now[i + 1] && cut_before[i] == before[i + 1]);
            }
        }
    }
}

/// Moving widgets twice is moving them once.
pub proof fn lemma_moved_twice(now: Seq<WidgetNode>, between: Seq<WidgetNode>, before: Seq<WidgetNode>)
    requires
        each_resized(now, between),
        each_resized(between, before),
    ensures
        each_resized(now, before),
{
    assert forall|i: int| 0 <= i < now.len() implies (#[trigger] now[i]).resized_from(&before[i]) by {
        now[i].lemma_resized_transitive(&between[i], &before[i]);
    }
}

/// A widget that comes behind moved widgets comes behind the widgets that were moved.
pub proof fn lemma_moved_and_one_more(now: Seq<WidgetNode>, before: Seq<WidgetNode>, widget: WidgetNode)
    requires
        each_resized(now, before),
    ensures
        each_resized(now.push(widget), before.push(widget)),
{
    widget.lemma_resized_from_itself();
    assert forall|i: int| 0 <= i < now.push(widget).len() implies (#[trigger] now.push(
        widget,
    )[i]).resized_from(&before.push(widget)[i]) by {
        if i < now.len() {
            assert(now.push(widget)[i] == now[i]);
            assert(before.push(widget)[i] == before[i]);
        }
    }
}

/// Every widget is well formed and covers its cell of the rectangle.
pub open spec fn laid_out(children: Seq<WidgetNode>, rect: Rect, orientation: RibbonOrientation) -> bool {
    forall|i: int|
        0 <= i < children.len() ==> (#[trigger] children[i]).wf() && children[i].rect() == cell(
            rect,
            orientation,
            children.len() as int,
            i,
        )
}

/// Names the queues that one child left to the next and the answers on either side of that
/// point. It holds of all of them and only marks the place in a step.
pub open spec fn handed_on(
    between: Map<ServiceId, Seq<Envelope<Request>>>,
    earlier: Seq<Response>,
    last: Seq<Response>,
) -> bool {
    true
}

/// Names the children that a ribbon kept after its own bookkeeping and the answers of the
/// widgets below it. It holds of all of them and only marks the place in a step.
pub open spec fn kept_as(kept: Seq<WidgetNode>, below: Seq<Response>) -> bool {
    true
}

/// The widgets `now` are the widgets `before` after each took its per-frame step, the
/// first on the queues `queues`, each further one on the queues that the one before it
/// left, the last leaving `after`; `replies` holds their answers in that order.
pub open spec fn each_stepped(
    now: Seq<WidgetNode>,
    before: Seq<WidgetNode>,
    queues: Map<ServiceId, Seq<Envelope<Request>>>,
    after: Map<ServiceId, Seq<Envelope<Request>>>,
    replies: Seq<Response>,
    levels: nat,
) -> bool
    decreases levels, 3nat, now.len(),
{
    &&& now.len() == before.len()
    &&& if now.len() == 0 {
        after == queues && replies == Seq::<Response>::empty()
    } else {
        exists|between: Map<ServiceId, Seq<Envelope<Request>>>, earlier: Seq<Response>, last: Seq<Response>|
            {
                &&& #[trigger] handed_on(between, earlier, last)
                &&& each_stepped(
                    now.drop_last(),
                    before.drop_last(),
                    queues,
                    between,
                    earlier,
                    levels,
                )
                &&& now.last().stepped_from(&before.last(), between, after, last, levels)
                &&& replies == earlier + last
            }
    }
}

impl WidgetNode {
    /// The widget's registry handle.
    pub open spec fn handle(&self) -> ServiceId {
        match self {
            WidgetNode::Button(button) => button.handle(),
            WidgetNode::Ribbon(ribbon) => ribbon.handle(),
            WidgetNode::RadioGroup(group) => group.handle(),
        }
    }

    /// The screen rectangle that the widget covers.
    pub open spec fn rect(&self) -> Rect {
        match self {
            WidgetNode::Button(button) => button.state().rect,
            WidgetNode::Ribbon(ribbon) => ribbon.rect(),
            WidgetNode::RadioGroup(group) => group.rect(),
        }
    }

    /// The widget and everything below it is well formed: handler keys rise, and every
    /// ribbon's children cover its cells.
    pub open spec fn wf(&self) -> bool
        decreases self,
    {
        match self {
            WidgetNode::Button(button) => button.wf(),
            WidgetNode::Ribbon(ribbon) => ribbon.wf(),
            WidgetNode::RadioGroup(_) => true,
        }
    }

    /// The handles of the widget and of everything below it.
    pub open spec fn handles(&self) -> Set<ServiceId>
        decreases self, 0nat,
    {
        match self {
            WidgetNode::Button(button) => set![button.handle()],
            WidgetNode::Ribbon(ribbon) => ribbon.handles(),
            WidgetNode::RadioGroup(group) => set![group.handle()],
        }
    }

    /// This is the widget `before`, moved to another rectangle: nothing but the rectangles
    /// of the widget and of what lies below it differs.
    pub open spec fn resized_from(&self, before: &WidgetNode) -> bool
        decreases self,
    {
        match (self, before) {
            (WidgetNode::Button(a), WidgetNode::Button(b)) => a.resized_from(b),
            (WidgetNode::Ribbon(a), WidgetNode::Ribbon(b)) => a.orientation() == b.orientation()
                && a.relaid_from(b),
            (WidgetNode::RadioGroup(a), WidgetNode::RadioGroup(b)) => a.same_but_rect(b),
            _ => false,
        }
    }

    /// This is the widget `before` after the pointer went down: every button below it took
    /// the event, and nothing else differs.
    pub open spec fn pressed_from(
        &self,
        before: &WidgetNode,
        button: MouseButton,
        x: int,
        y: int,
    ) -> bool
        decreases self,
    {
        match (self, before) {
            (WidgetNode::Button(a), WidgetNode::Button(b)) => a.pressed_from(b, button, x, y),
            (WidgetNode::Ribbon(a), WidgetNode::Ribbon(b)) => a.pressed_from(b, button, x, y),
            (WidgetNode::RadioGroup(a), WidgetNode::RadioGroup(b)) => a == b,
            _ => false,
        }
    }

    /// This is the widget `before` after the pointer came up: every button below it took
    /// the event, and nothing else differs.
    pub open spec fn released_from(
        &self,
        before: &WidgetNode,
        button: MouseButton,
        x: int,
        y: int,
    ) -> bool
        decreases self,
    {
        match (self, before) {
            (WidgetNode::Button(a), WidgetNode::Button(b)) => a.released_from(b, button, x, y),
            (WidgetNode::Ribbon(a), WidgetNode::Ribbon(b)) => a.released_from(b, button, x, y),
            (WidgetNode::RadioGroup(a), WidgetNode::RadioGroup(b)) => a == b,
            _ => false,
        }
    }

    /// The clicks that fire when the pointer comes up: those of the buttons below the
    /// widget, in the order of the tree.
    pub open spec fn fires(&self, button: MouseButton, x: int, y: int) -> Seq<Click>
        decreases self, 0nat,
    {
        match self {
            WidgetNode::Button(b) => b.fires(button, x, y),
            WidgetNode::Ribbon(ribbon) => ribbon.fires(button, x, y),
            WidgetNode::RadioGroup(_) => Seq::empty(),
        }
    }

    /// This is the widget `before` after its per-frame step on the queues `queues`, which
    /// left the queues `after` and gave the answers `replies`: the widget served what
    /// waited for it, and so did what lies up to `levels` levels below it.
    pub open spec fn stepped_from(
        &self,
        before: &WidgetNode,
        queues: Map<ServiceId, Seq<Envelope<Request>>>,
        after: Map<ServiceId, Seq<Envelope<Request>>>,
        replies: Seq<Response>,
        levels: nat,
    ) -> bool
        decreases levels, 2nat, 0nat,
    {
        match (self, before) {
            (WidgetNode::Button(a), WidgetNode::Button(b)) => a.stepped_from(
                b,
                queues,
                after,
                replies,
            ),
            (WidgetNode::Ribbon(a), WidgetNode::Ribbon(b)) => a.stepped_from(
                b,
                queues,
                after,
                replies,
                levels,
            ),
            (WidgetNode::RadioGroup(a), WidgetNode::RadioGroup(b)) => a.stepped_from(
                b,
                queues,
                after,
                replies,
            ),
            _ => false,
        }
    }

    /// Every widget is itself, moved nowhere.
    pub proof fn lemma_resized_from_itself(&self)
        ensures
            self.resized_from(self),
        decreases self,
    {
        match self {
            WidgetNode::Ribbon(ribbon) => {
                assert forall|i: int| 0 <= i < ribbon.widgets.len() implies (
                #[trigger] ribbon.widgets[i]).resized_from(&ribbon.widgets[i]) by {
                    ribbon.widgets[i].lemma_resized_from_itself();
                }
            },
            _ => {},
        }
    }

    /// A widget that was only moved has the handles that it had.
    pub proof fn lemma_resized_keeps_handles(&self, before: &WidgetNode)
        requires
            self.resized_from(before),
        ensures
            self.handle() == before.handle(),
            self.handles() == before.handles(),
        decreases self, 0nat,
    {
        match (self, before) {
            (WidgetNode::Ribbon(a), WidgetNode::Ribbon(b)) => {
                a.lemma_relaid_keeps_handles(b, a.widgets.len() as nat);
            },
            _ => {},
        }
    }

    /// Moving a widget twice is moving it once.
    pub proof fn lemma_resized_transitive(&self, between: &WidgetNode, before: &WidgetNode)
        requires
            self.resized_from(between),
            between.resized_from(before),
        ensures
            self.resized_from(before),
        decreases self,
    {
        match (self, between, before) {
            (WidgetNode::Ribbon(a), WidgetNode::Ribbon(m), WidgetNode::Ribbon(b)) => {
                assert forall|i: int| 0 <= i < a.widgets.len() implies (
                #[trigger] a.widgets[i]).resized_from(&b.widgets[i]) by {
                    a.widgets[i].lemma_resized_transitive(&m.widgets[i], &b.widgets[i]);
                }
            },
            _ => {},
        }
    }

    /// The widget's registry handle.
    pub fn srv_id(&self) -> (id: ServiceId)
        ensures
            id == self.handle(),
    {
        match self {
            WidgetNode::Button(button) => button.srv_id(),
            WidgetNode::Ribbon(ribbon) => ribbon.srv_id(),
            WidgetNode::RadioGroup(group) => group.srv_id(),
        }
    }

    /// The screen rectangle that the widget covers.
    pub fn get_rect(&self) -> (rect: Rect)
        ensures
            rect == self.rect(),
    {
        match self {
            WidgetNode::Button(button) => button.get_rect(),
            WidgetNode::Ribbon(ribbon) => ribbon.get_rect(),
            WidgetNode::RadioGroup(group) => group.get_rect(),
        }
    }

    /// Moves the widget to a rectangle; a ribbon shares it among its children.
    pub fn set_rect(&mut self, rect: Rect)
        requires
            old(self).wf(),
            rect.valid(),
        ensures
            final(self).wf(),
            final(self).rect() == rect,
            final(self).handle() == old(self).handle(),
            final(self).resized_from(old(self)),
        decreases *old(self),
    {
        match self {
            WidgetNode::Button(button) => button.set_rect(rect),
            WidgetNode::Ribbon(ribbon) => ribbon.set_rect(rect),
            WidgetNode::RadioGroup(group) => group.set_rect(rect),
        }
    }

    /// The pointer went down: every button below the widget takes the event.
    pub fn mouse_button_down_event(&mut self, button: MouseButton, x: i32, y: i32)
        requires
            old(self).wf(),
        ensures
            final(self).wf(),
            final(self).rect() == old(self).rect(),
            final(self).handle() == old(self).handle(),
            final(self).pressed_from(old(self), button, x as int, y as int),
        decreases *old(self),
    {
        match self {
            WidgetNode::Button(b) => b.mouse_button_down_event(button, x, y),
            WidgetNode::Ribbon(ribbon) => ribbon.mouse_button_down_event(button, x, y),
            WidgetNode::RadioGroup(_) => {},
        }
    }

    /// The pointer came up: every button below the widget takes the event, and the clicks
    /// that fire are handed back in the order of the tree.
    pub fn mouse_button_up_event(&mut self, button: MouseButton, x: i32, y: i32) -> (fired: Vec<
        Click,
    >)
        requires
            old(self).wf(),
        ensures
            final(self).wf(),
            final(self).rect() == old(self).rect(),
            final(self).handle() == old(self).handle(),
            final(self).released_from(old(self), button, x as int, y as int),
            fired@ == old(self).fires(button, x as int, y as int),
        decreases *old(self),
    {
        match self {
            WidgetNode::Button(b) => b.mouse_button_up_event(button, x, y),
            WidgetNode::Ribbon(ribbon) => ribbon.mouse_button_up_event(button, x, y),
            WidgetNode::RadioGroup(_) => Vec::new(),
        }
    }

    /// The per-frame step of the widget and of everything below it. Each widget serves the
    /// requests that wait for it; the answers come back in the order in which they were
    /// given.
    pub fn update(&mut self, registry: &mut Registry<Request>) -> (replies: Vec<Response>)
        requires
            old(self).wf(),
        ensures
            final(self).wf(),
            final(self).rect() == old(self).rect(),
            final(self).handle() == old(self).handle(),
            final(self).stepped_from(
                old(self),
                old(registry)@,
                final(registry)@,
                replies@,
                usize::MAX as nat,
            ),
            forall|any: ServiceId| final(registry).issued(any) == old(registry).issued(any),
    {
        self.update_levels(registry, usize::MAX)
    }

    /// The per-frame step of the widget and of the given number of levels below it.
    pub fn update_levels(&mut self, registry: &mut Registry<Request>, levels: usize) -> (replies:
        Vec<Response>)
        requires
            old(self).wf(),
        ensures
            final(self).wf(),
            final(self).rect() == old(self).rect(),
            final(self).handle() == old(self).handle(),
            final(self).stepped_from(
                old(self),
                old(registry)@,
                final(registry)@,
                replies@,
                levels as nat,
            ),
            forall|any: ServiceId| final(registry).issued(any) == old(registry).issued(any),
        decreases levels, 2nat,
    {
        proof {
            if let WidgetNode::Button(button) = self {
                lemma_serving_keeps_rect(
                    button.state(),
                    button.handlers(),
                    registry.pending(button.handle()),
                );
            }
        }
        match self {
            WidgetNode::Button(button) => button.update(registry),
            WidgetNode::Ribbon(ribbon) => ribbon.update_levels(registry, levels),
            WidgetNode::RadioGroup(group) => group.update(registry),
        }
    }

    /// Destroys the widget and everything below it: none of their handles resolves any
    /// more, and what waited for them is dropped.
    pub fn release(self, registry: &mut Registry<Request>)
        ensures
            final(registry)@ == old(registry)@.remove_keys(self.handles()),
            forall|any: ServiceId| final(registry).issued(any) == old(registry).issued(any),
        decreases self,
    {
        match self {
            WidgetNode::Button(button) => {
                let orphans = registry.unregister(button.srv_id());
                assert(registry@ =~= old(registry)@.remove_keys(set![button.handle()]));
            },
            WidgetNode::Ribbon(ribbon) => ribbon.release(registry),
            WidgetNode::RadioGroup(group) => {
                let orphans = registry.unregister(group.srv_id());
                assert(registry@ =~= old(registry)@.remove_keys(set![group.handle()]));
            },
        }
    }
}

impl Ribbon {
    /// The ribbon's registry handle.
    pub closed spec fn handle(&self) -> ServiceId {
        self.id
    }

    /// The screen rectangle that the ribbon covers.
    pub closed spec fn rect(&self) -> Rect {
        self.rect
    }

    /// Whether the ribbon is a row or a column.
    pub closed spec fn orientation(&self) -> RibbonOrientation {
        self.orientation
    }

    /// The children, in the order in which they were added.
    pub closed spec fn children(&self) -> Seq<WidgetNode> {
        self.widgets@
    }

    /// The ribbon is well formed: its rectangle lies on the pixel grid, every child is well
    /// formed, and the `i`-th of its `n` children covers the `i`-th of the `n` cells of its
    /// rectangle.
    pub closed spec fn wf(&self) -> bool
        decreases self,
    {
        &&& self.rect.valid()
        &&& forall|i: int| 0 <= i < self.widgets.len() ==> (#[trigger] self.widgets[i]).wf()
        &&& forall|i: int|
            0 <= i < self.widgets.len() ==> (#[trigger] self.widgets[i]).rect() == cell(
                self.rect,
                self.orientation,
                self.widgets.len() as int,
                i,
            )
    }

    /// The handles of the ribbon and of everything below its first `k` children.
    pub closed spec fn handles_upto(&self, k: nat) -> Set<ServiceId>
        decreases self, k,
    {
        if k == 0 || k > self.widgets.len() {
            set![self.id]
        } else {
            self.handles_upto((k - 1) as nat).union(self.widgets[k - 1].handles())
        }
    }

    /// The handles of the ribbon and of everything below it.
    pub closed spec fn handles(&self) -> Set<ServiceId>
        decreases self, self.children().len() + 1,
    {
        self.handles_upto(self.widgets.len() as nat)
    }

    /// This is the ribbon `before` with every child moved to another rectangle.
    pub closed spec fn relaid_from(&self, before: &Ribbon) -> bool
        decreases self,
    {
        &&& self.id == before.id
        &&& self.widgets.len() == before.widgets.len()
        &&& forall|i: int|
            0 <= i < self.widgets.len() ==> (#[trigger] self.widgets[i]).resized_from(
                &before.widgets[i],
            )
    }

    /// This is the ribbon `before` after the pointer went down.
    pub closed spec fn pressed_from(&self, before: &Ribbon, button: MouseButton, x: int, y: int) -> bool
        decreases self,
    {
        &&& self.id == before.id
        &&& self.rect == before.rect
        &&& self.orientation == before.orientation
        &&& self.widgets.len() == before.widgets.len()
        &&& forall|i: int|
            0 <= i < self.widgets.len() ==> (#[trigger] self.widgets[i]).pressed_from(
                &before.widgets[i],
                button,
                x,
                y,
            )
    }

    /// This is the ribbon `before` after the pointer came up.
    pub closed spec fn released_from(&self, before: &Ribbon, button: MouseButton, x: int, y: int) -> bool
        decreases self,
    {
        &&& self.id == before.id
        &&& self.rect == before.rect
        &&& self.orientation == before.orientation
        &&& self.widgets.len() == before.widgets.len()
        &&& forall|i: int|
            0 <= i < self.widgets.len() ==> (#[trigger] self.widgets[i]).released_from(
                &before.widgets[i],
                button,
                x,
                y,
            )
    }

    /// The clicks that fire below the first `k` children when the pointer comes up.
    pub closed spec fn fires_upto(&self, k: nat, button: MouseButton, x: int, y: int) -> Seq<Click>
        decreases self, k,
    {
        if k == 0 || k > self.widgets.len() {
            Seq::empty()
        } else {
            self.fires_upto((k - 1) as nat, button, x, y) + self.widgets[k - 1].fires(button, x, y)
        }
    }

    /// The clicks that fire below the ribbon when the pointer comes up: those of the first
    /// child, then those of the second, and so on.
    pub closed spec fn fires(&self, button: MouseButton, x: int, y: int) -> Seq<Click>
        decreases self, self.children().len() + 1,
    {
        self.fires_upto(self.widgets.len() as nat, button, x, y)
    }

    /// This is the ribbon `before` after its per-frame step on the queues `queues`: it served
    /// what waited for it and laid its children out, then, where a level was left, every
    /// child took its step with one level less, in the order of the children.
    pub closed spec fn stepped_from(
        &self,
        before: &Ribbon,
        queues: Map<ServiceId, Seq<Envelope<Request>>>,
        after: Map<ServiceId, Seq<Envelope<Request>>>,
        replies: Seq<Response>,
        levels: nat,
    ) -> bool
        decreases levels, 1nat, 0nat,
    {
        let plan = bookkeep_all(
            before.orientation,
            before.widgets@,
            emptied(queues, before.id),
            waiting(queues, before.id),
        );
        &&& self.id == before.id
        &&& self.rect == before.rect
        &&& self.orientation == plan.orientation
        &&& if levels == 0 {
            &&& each_resized(self.widgets@, plan.children)
            &&& laid_out(self.widgets@, self.rect, self.orientation)
            &&& after == plan.queues
            &&& replies == plan.replies
        } else {
            exists|kept: Seq<WidgetNode>, below: Seq<Response>|
                {
                    &&& #[trigger] kept_as(kept, below)
                    &&& each_resized(kept, plan.children)
                    &&& laid_out(kept, self.rect, self.orientation)
                    &&& each_stepped(
                        self.widgets@,
                        kept,
                        plan.queues,
                        after,
                        below,
                        (levels - 1) as nat,
                    )
                    &&& replies == plan.replies + below
                }
        }
    }

    /// What the descriptions of a ribbon say in terms of its children.
    pub proof fn lemma_in_terms_of_children(
        &self,
        before: &Ribbon,
        button: MouseButton,
        x: int,
        y: int,
        queues: Map<ServiceId, Seq<Envelope<Request>>>,
        after: Map<ServiceId, Seq<Envelope<Request>>>,
        replies: Seq<Response>,
        levels: nat,
    )
        ensures
            self.wf() == (self.rect().valid() && laid_out(
                self.children(),
                self.rect(),
                self.orientation(),
            )),
            self.relaid_from(before) == (self.handle() == before.handle() && each_resized(
                self.children(),
                before.children(),
            )),
            self.pressed_from(before, button, x, y) == (self.handle() == before.handle()
                && self.rect() == before.rect() && self.orientation() == before.orientation()
                && each_pressed(self.children(), before.children(), button, x, y)),
            self.released_from(before, button, x, y) == (self.handle() == before.handle()
                && self.rect() == before.rect() && self.orientation() == before.orientation()
                && each_released(self.children(), before.children(), button, x, y)),
            self.handles() == self.handles_upto(self.children().len()),
            self.handles_upto(0) == set![self.handle()],
            forall|k: nat|
                0 < k <= self.children().len() ==> #[trigger] self.handles_upto(k)
                    == self.handles_upto((k - 1) as nat).union(self.children()[k - 1].handles()),
            self.fires(button, x, y) == self.fires_upto(self.children().len(), button, x, y),
            self.fires_upto(0, button, x, y) == Seq::<Click>::empty(),
            forall|k: nat|
                0 < k <= self.children().len() ==> #[trigger] self.fires_upto(k, button, x, y)
                    == self.fires_upto((k - 1) as nat, button, x, y) + self.children()[k
                    - 1].fires(button, x, y),
            self.stepped_from(before, queues, after, replies, levels) == ({
                let plan = bookkeep_all(
                    before.orientation(),
                    before.children(),
                    emptied(queues, before.handle()),
                    waiting(queues, before.handle()),
                );
                &&& self.handle() == before.handle()
                &&& self.rect() == before.rect()
                &&& self.orientation() == plan.orientation
                &&& if levels == 0 {
                    &&& each_resized(self.children(), plan.children)
                    &&& laid_out(self.children(), self.rect(), self.orientation())
                    &&& after == plan.queues
                    &&& replies == plan.replies
                } else {
                    exists|kept: Seq<WidgetNode>, below: Seq<Response>|
                        {
                            &&& #[trigger] kept_as(kept, below)
                            &&& each_resized(kept, plan.children)
                            &&& laid_out(kept, self.rect(), self.orientation())
                            &&& each_stepped(
                                self.children(),
                                kept,
                                plan.queues,
                                after,
                                below,
                                (levels - 1) as nat,
                            )
                            &&& replies == plan.replies + below
                        }
                }
            }),
    {
        if self.wf() {
            self.lemma_laid_out();
        }
        if self.rect().valid() && laid_out(self.children(), self.rect(), self.orientation()) {
            assert forall|i: int| 0 <= i < self.widgets.len() implies (#[trigger] self.widgets[i]).wf()
                && self.widgets[i].rect() == cell(
                self.rect,
                self.orientation,
                self.widgets.len() as int,
                i,
            ) by {
                assert(self.widgets@[i].wf());
            }
        }
    }

    /// An empty row at the origin, registered under a handle of its own.
    pub fn new<R>(registry: &mut Registry<R>) -> (ribbon: Self)
        ensures
            ribbon.wf(),
            ribbon.children() == Seq::<WidgetNode>::empty(),
            ribbon.rect() == (Rect { x: 0, y: 0, w: 0, h: 0 }),
            ribbon.orientation() == RibbonOrientation::Horizontal,
            !old(registry).issued(ribbon.handle()),
            !old(registry).is_live(ribbon.handle()),
            forall|any: ServiceId|
                final(registry).issued(any) == (old(registry).issued(any) || any == ribbon.handle()),
            final(registry)@ == old(registry)@.insert(ribbon.handle(), Seq::empty()),
    {
        Self {
            widgets: Vec::new(),
            rect: Rect { x: 0, y: 0, w: 0, h: 0 },
            orientation: RibbonOrientation::Horizontal,
            id: registry.register(),
        }
    }

    /// The handle by which other code reaches this ribbon.
    pub fn id(&self) -> (id: RibbonId)
        ensures
            id == RibbonId(self.handle()),
    {
        RibbonId(self.id)
    }

    /// The ribbon's registry handle.
    pub fn srv_id(&self) -> (id: ServiceId)
        ensures
            id == self.handle(),
    {
        self.id
    }

    /// The screen rectangle that the ribbon covers.
    pub fn get_rect(&self) -> (rect: Rect)
        ensures
            rect == self.rect(),
    {
        self.rect
    }

    /// Whether the ribbon is a row or a column.
    pub fn get_orientation(&self) -> (orientation: RibbonOrientation)
        ensures
            orientation == self.orientation(),
    {
        self.orientation
    }

    /// The number of children.
    pub fn len(&self) -> (n: usize)
        ensures
            n == self.children().len(),
    {
        self.widgets.len()
    }

    /// The `i`-th child.
    pub fn child(&self, i: usize) -> (widget: &WidgetNode)
        requires
            i < self.children().len(),
        ensures
            *widget == self.children()[i as int],
    {
        &self.widgets[i]
    }

    /// Moves the ribbon to a rectangle, makes it a row or a column, and gives every child
    /// its cell. A ribbon without children has no cells.
    fn update_widgets_rects(&mut self, rect: Rect, orientation: RibbonOrientation)
        requires
            rect.valid(),
            forall|i: int| 0 <= i < old(self).widgets.len() ==> (#[trigger] old(self).widgets[i]).wf(),
        ensures
            final(self).wf(),
            final(self).rect == rect,
            final(self).orientation == orientation,
            final(self).relaid_from(old(self)),
        decreases *old(self), 0nat,
    {
        let n = self.widgets.len();
        let mut i: usize = 0;
        while i < n
            invariant
                i <= n,
                n == self.widgets.len(),
                n == old(self).widgets.len(),
                rect.valid(),
                self.id == old(self).id,
                forall|j: int| i <= j < n ==> self.widgets[j] == old(self).widgets[j],
                forall|j: int| 0 <= j < n ==> (#[trigger] self.widgets[j]).wf(),
                forall|j: int|
                    0 <= j < i ==> (#[trigger] self.widgets[j]).rect() == cell(
                        rect,
                        orientation,
                        n as int,
                        j,
                    ),
                forall|j: int|
                    0 <= j < i ==> (#[trigger] self.widgets[j]).resized_from(&old(self).widgets[j]),
            decreases n - i,
        {
            let place = cell_rect(rect, orientation, n, i);
            let ghost before = self.widgets@;
            let child = &mut self.widgets[i];
            child.set_rect(place);
            assert forall|j: int| 0 <= j < n implies (#[trigger] self.widgets[j]).wf() by {
                if j != i {
                    assert(self.widgets[j] == before[j]);
                }
            }
            assert forall|j: int| 0 <= j < i + 1 implies (#[trigger] self.widgets[j]).rect() == cell(
                rect,
                orientation,
                n as int,
                j,
            ) by {
                if j != i {
                    assert(self.widgets[j] == before[j]);
                }
            }
            assert forall|j: int| 0 <= j < i + 1 implies (#[trigger] self.widgets[j]).resized_from(
                &old(self).widgets[j],
            ) by {
                if j != i {
                    assert(self.widgets[j] == before[j]);
                }
            }
            i += 1;
        }
        self.rect = rect;
        self.orientation = orientation;
    }

    /// Moves the ribbon to a rectangle and shares the rectangle among the children.
    pub fn set_rect(&mut self, rect: Rect)
        requires
            old(self).wf(),
            rect.valid(),
        ensures
            final(self).wf(),
            final(self).rect() == rect,
            final(self).orientation() == old(self).orientation(),
            final(self).relaid_from(old(self)),
            final(self).handle() == old(self).handle(),
            each_resized(final(self).children(), old(self).children()),
        decreases *old(self), 1nat,
    {
        self.update_widgets_rects(rect, self.orientation);
    }

    /// Turns the ribbon into a row or a column and shares its rectangle anew.
    pub fn set_orientation(&mut self, orientation: RibbonOrientation)
        requires
            old(self).wf(),
        ensures
            final(self).wf(),
            final(self).rect() == old(self).rect(),
            final(self).orientation() == orientation,
            final(self).handle() == old(self).handle(),
            each_resized(final(self).children(), old(self).children()),
    {
        self.update_widgets_rects(self.rect, orientation);
    }

    /// Adds a widget behind the other children and shares the ribbon's rectangle anew.
    pub fn add_widget_box(&mut self, widget: WidgetNode)
        requires
            old(self).wf(),
            widget.wf(),
        ensures
            final(self).wf(),
            final(self).rect() == old(self).rect(),
            final(self).orientation() == old(self).orientation(),
            final(self).handle() == old(self).handle(),
            each_resized(final(self).children(), old(self).children().push(widget)),
    {
        self.widgets.push(widget);
        self.update_widgets_rects(self.rect, self.orientation);
    }

    /// Adds a widget behind the other children and shares the ribbon's rectangle anew.
    pub fn add_widget(&mut self, widget: WidgetNode)
        requires
            old(self).wf(),
            widget.wf(),
        ensures
            final(self).wf(),
            final(self).rect() == old(self).rect(),
            final(self).orientation() == old(self).orientation(),
            final(self).handle() == old(self).handle(),
            each_resized(final(self).children(), old(self).children().push(widget)),
    {
        self.add_widget_box(widget)
    }

    /// Removes the first child with the handle, destroys it with everything below it, and
    /// shares the ribbon's rectangle anew. A handle that no child has changes nothing.
    pub fn remove_widget(&mut self, id: ServiceId, registry: &mut Registry<Request>)
        requires
            old(self).wf(),
        ensures
            final(self).wf(),
            final(self).rect() == old(self).rect(),
            final(self).orientation() == old(self).orientation(),
            final(self).handle() == old(self).handle(),
            each_resized(final(self).children(), without_first(old(self).children(), id)),
            final(registry)@ == released(old(registry)@, old(self).children(), id),
            first_with(old(self).children(), id) < old(self).children().len()
                ==> !final(registry).is_live(id),
            forall|any: ServiceId| final(registry).issued(any) == old(registry).issued(any),
    {
        let n = self.widgets.len();
        let mut i: usize = 0;
        proof {
            lemma_first_with(self.widgets@, id);
        }
        while i < n && self.widgets[i].srv_id() != id
            invariant
                i <= n,
                n == self.widgets.len(),
                *self == *old(self),
                forall|j: int| 0 <= j < i ==> (#[trigger] self.widgets[j]).handle() != id,
            decreases n - i,
        {
            i += 1;
        }
        proof {
            if i < n {
                assert(first_with(self.widgets@, id) == i) by {
                    if first_with(self.widgets@, id) < i {
                        assert(self.widgets[first_with(self.widgets@, id)].handle() != id);
                    }
                }
            } else {
                assert(first_with(self.widgets@, id) == n) by {
                    if first_with(self.widgets@, id) < n {
                        assert(self.widgets[first_with(self.widgets@, id)].handle() != id);
                    }
                }
            }
        }
        if i < n {
            let gone = self.widgets.remove(i);
            proof {
                gone.lemma_holds_own_handle();
            }
            gone.release(registry);
            self.update_widgets_rects(self.rect, self.orientation);
        } else {
            proof {
                assert forall|j: int| 0 <= j < n implies (#[trigger] self.widgets[j]).resized_from(
                    &self.widgets[j],
                ) by {
                    self.widgets[j].lemma_resized_from_itself();
                }
            }
        }
    }

    /// Applies one operation of the control surface and answers it. A widget that is not
    /// well formed is not added: it is destroyed, and the answer says so.
    pub fn serve(&mut self, op: RibbonOp, registry: &mut Registry<Request>) -> (reply: Reply)
        requires
            old(self).wf(),
        ensures
            final(self).wf(),
            final(self).rect() == old(self).rect(),
            final(self).handle() == old(self).handle(),
            final(self).orientation() == match op {
                RibbonOp::SetOrientation(orientation) => orientation,
                _ => old(self).orientation(),
            },
            each_resized(
                final(self).children(),
                match op {
                    RibbonOp::AddWidget(widget) => if widget.wf() {
                        old(self).children().push(widget)
                    } else {
                        old(self).children()
                    },
                    RibbonOp::RemoveWidget(id) => without_first(old(self).children(), id),
                    _ => old(self).children(),
                },
            ),
            reply == match op {
                RibbonOp::GetOrientation => Reply::Orientation(old(self).orientation()),
                RibbonOp::AddWidget(widget) => if widget.wf() {
                    Reply::Done
                } else {
                    Reply::Unsupported
                },
                _ => Reply::Done,
            },
            final(registry)@ == match op {
                RibbonOp::AddWidget(widget) => if widget.wf() {
                    old(registry)@
                } else {
                    old(registry)@.remove_keys(widget.handles())
                },
                RibbonOp::RemoveWidget(id) => released(old(registry)@, old(self).children(), id),
                _ => old(registry)@,
            },
            forall|any: ServiceId| final(registry).issued(any) == old(registry).issued(any),
    {
        proof {
            assert forall|j: int| 0 <= j < self.widgets.len() implies (
            #[trigger] self.widgets[j]).resized_from(&self.widgets[j]) by {
                self.widgets[j].lemma_resized_from_itself();
            }
        }
        match op {
            RibbonOp::AddWidget(widget) => {
                if widget.is_wf() {
                    self.add_widget_box(widget);
                    Reply::Done
                } else {
                    widget.release(registry);
                    Reply::Unsupported
                }
            },
            RibbonOp::RemoveWidget(id) => {
                self.remove_widget(id, registry);
                Reply::Done
            },
            RibbonOp::SetOrientation(orientation) => {
                self.set_orientation(orientation);
                Reply::Done
            },
            RibbonOp::GetOrientation => Reply::Orientation(self.get_orientation()),
        }
    }

    /// The per-frame step: the ribbon serves every request that waits for it, oldest first,
    /// then every child takes its own step, in the order of the children. The answers come
    /// back in the order in which they were given.
    pub fn update(&mut self, registry: &mut Registry<Request>) -> (replies: Vec<Response>)
        requires
            old(self).wf(),
        ensures
            final(self).wf(),
            final(self).rect() == old(self).rect(),
            final(self).handle() == old(self).handle(),
            final(self).stepped_from(
                old(self),
                old(registry)@,
                final(registry)@,
                replies@,
                usize::MAX as nat,
            ),
            forall|any: ServiceId| final(registry).issued(any) == old(registry).issued(any),
    {
        self.update_levels(registry, usize::MAX)
    }

    /// The per-frame step of the ribbon and of the given number of levels below it: the
    /// ribbon serves its requests, and where a level is left every child takes its step
    /// with one level less. No tree that fits in memory is deeper than the greatest number.
    pub fn update_levels(&mut self, registry: &mut Registry<Request>, levels: usize) -> (replies:
        Vec<Response>)
        requires
            old(self).wf(),
        ensures
            final(self).wf(),
            final(self).rect() == old(self).rect(),
            final(self).handle() == old(self).handle(),
            final(self).stepped_from(
                old(self),
                old(registry)@,
                final(registry)@,
                replies@,
                levels as nat,
            ),
            forall|any: ServiceId| final(registry).issued(any) == old(registry).issued(any),
        decreases levels, 1nat,
    {
        let mut replies = self.serve_requests(registry);
        proof {
            self.lemma_laid_out();
        }
        if levels > 0 {
            let ghost kept = self.widgets@;
            let ghost own = replies@;
            let ghost queues = registry@;
            self.update_children(registry, &mut replies, levels - 1);
            assert(kept_as(kept, replies@.skip(own.len() as int)));
            assert(replies@ =~= own + replies@.skip(own.len() as int));
        }
        replies
    }

    /// Serves every request that waits for the ribbon, oldest first, answers each exactly
    /// once, and leaves every child in its cell.
    pub fn serve_requests(&mut self, registry: &mut Registry<Request>) -> (replies: Vec<Response>)
        requires
            old(self).wf(),
        ensures
            final(self).wf(),
            final(self).rect() == old(self).rect(),
            final(self).handle() == old(self).handle(),
            final(self).orientation() == bookkeep_all(
                old(self).orientation(),
                old(self).children(),
                emptied(old(registry)@, old(self).handle()),
                old(registry).pending(old(self).handle()),
            ).orientation,
            each_resized(
                final(self).children(),
                bookkeep_all(
                    old(self).orientation(),
                    old(self).children(),
                    emptied(old(registry)@, old(self).handle()),
                    old(registry).pending(old(self).handle()),
                ).children,
            ),
            final(registry)@ == bookkeep_all(
                old(self).orientation(),
                old(self).children(),
                emptied(old(registry)@, old(self).handle()),
                old(registry).pending(old(self).handle()),
            ).queues,
            replies@ == bookkeep_all(
                old(self).orientation(),
                old(self).children(),
                emptied(old(registry)@, old(self).handle()),
                old(registry).pending(old(self).handle()),
            ).replies,
            forall|any: ServiceId| final(registry).issued(any) == old(registry).issued(any),
    {
        let mut rest = reversed(registry.drain(self.id));
        let ghost all = old(registry).pending(old(self).handle());
        let ghost start = registry@;
        let mut replies: Vec<Response> = Vec::new();
        let n = rest.len();
        let mut served: usize = 0;
        proof {
            assert forall|j: int| 0 <= j < self.widgets.len() implies (
            #[trigger] self.widgets@[j]).resized_from(&self.widgets@[j]) by {
                self.widgets@[j].lemma_resized_from_itself();
            }
        }
        while rest.len() > 0
            invariant
                self.wf(),
                self.id == old(self).id,
                self.rect == old(self).rect,
                n == all.len(),
                served + rest@.len() == n,
                forall|i: int| 0 <= i < rest@.len() ==> rest@[i] == all[all.len() - 1 - i],
                forall|any: ServiceId| registry.issued(any) == old(registry).issued(any),
                self.orientation == bookkeep_all(
                    old(self).orientation,
                    old(self).widgets@,
                    start,
                    all.take(served as int),
                ).orientation,
                each_resized(
                    self.widgets@,
                    bookkeep_all(
                        old(self).orientation,
                        old(self).widgets@,
                        start,
                        all.take(served as int),
                    ).children,
                ),
                registry@ == bookkeep_all(
                    old(self).orientation,
                    old(self).widgets@,
                    start,
                    all.take(served as int),
                ).queues,
                replies@ == bookkeep_all(
                    old(self).orientation,
                    old(self).widgets@,
                    start,
                    all.take(served as int),
                ).replies,
            decreases rest@.len(),
        {
            let ghost plan = bookkeep_all(
                old(self).orientation,
                old(self).widgets@,
                start,
                all.take(served as int),
            );
            let ghost children = self.widgets@;
            match rest.pop() {
                Some(envelope) => {
                    assert(envelope == all[served as int]);
                    assert(all.take(served + 1).drop_last() =~= all.take(served as int));
                    assert(all.take(served + 1).last() == envelope);
                    let reply_to = envelope.reply_to;
                    let reply = match envelope.request {
                        Request::Ribbon(op) => {
                            let ghost asked = op;
                            proof {
                                match asked {
                                    RibbonOp::AddWidget(widget) => {
                                        lemma_moved_and_one_more(children, plan.children, widget);
                                    },
                                    RibbonOp::RemoveWidget(id) => {
                                        lemma_moved_keep_handles(children, plan.children, id);
                                        lemma_first_with(children, id);
                                    },
                                    _ => {},
                                }
                            }
                            let reply = self.serve(op, registry);
                            proof {
                                let next = bookkeep_one(plan, all[served as int]);
                                match asked {
                                    RibbonOp::AddWidget(widget) => {
                                        if widget.wf() {
                                            lemma_moved_twice(
                                                self.widgets@,
                                                children.push(widget),
                                                next.children,
                                            );
                                        } else {
                                            lemma_moved_twice(self.widgets@, children, next.children);
                                        }
                                    },
                                    RibbonOp::RemoveWidget(id) => {
                                        lemma_moved_twice(
                                            self.widgets@,
                                            without_first(children, id),
                                            next.children,
                                        );
                                    },
                                    _ => {
                                        lemma_moved_twice(self.widgets@, children, next.children);
                                    },
                                }
                            }
                            reply
                        },
                        _ => Reply::Unsupported,
                    };
                    replies.push(Response { reply_to, reply });
                    served += 1;
                },
                None => {},
            }
        }
        assert(all.take(n as int) =~= all);
        replies
    }

    /// Lets every child take its per-frame step, in the order of the children, and adds
    /// their answers to `replies`.
    fn update_children(
        &mut self,
        registry: &mut Registry<Request>,
        replies: &mut Vec<Response>,
        levels: usize,
    )
        requires
            old(self).wf(),
        ensures
            final(self).wf(),
            final(self).rect == old(self).rect,
            final(self).orientation == old(self).orientation,
            final(self).id == old(self).id,
            final(self).widgets.len() == old(self).widgets.len(),
            final(replies)@.len() >= old(replies)@.len(),
            final(replies)@.take(old(replies)@.len() as int) == old(replies)@,
            each_stepped(
                final(self).widgets@,
                old(self).widgets@,
                old(registry)@,
                final(registry)@,
                final(replies)@.skip(old(replies)@.len() as int),
                levels as nat,
            ),
            forall|any: ServiceId| final(registry).issued(any) == old(registry).issued(any),
        decreases levels, 3nat,
    {
        let n = self.widgets.len();
        let ghost first = replies@.len() as int;
        proof {
            assert(self.widgets@.take(0) =~= Seq::<WidgetNode>::empty());
            assert(replies@.skip(first) =~= Seq::<Response>::empty());
            assert(replies@.take(first) =~= replies@);
        }
        let mut i: usize = 0;
        while i < n
            invariant
                i <= n,
                n == self.widgets.len(),
                n == old(self).widgets.len(),
                self.rect == old(self).rect,
                self.orientation == old(self).orientation,
                self.id == old(self).id,
                self.wf(),
                forall|j: int| i <= j < n ==> self.widgets[j] == old(self).widgets[j],
                forall|any: ServiceId| registry.issued(any) == old(registry).issued(any),
                first == old(replies)@.len(),
                replies@.len() >= first,
                replies@.take(first) == old(replies)@,
                each_stepped(
                    self.widgets@.take(i as int),
                    old(self).widgets@.take(i as int),
                    old(registry)@,
                    registry@,
                    replies@.skip(first),
                    levels as nat,
                ),
            decreases n - i,
        {
            let ghost before = self.widgets@;
            let ghost between = registry@;
            let ghost earlier = replies@.skip(first);
            let ghost so_far = replies@;
            let child = &mut self.widgets[i];
            let mut answers = child.update_levels(registry, levels);
            let ghost last = answers@;
            replies.append(&mut answers);
            proof {
                let now = self.widgets@.take(i + 1);
                let was = old(self).widgets@.take(i + 1);
                assert(now.drop_last() =~= before.take(i as int));
                assert(was.drop_last() =~= old(self).widgets@.take(i as int));
                assert(now.last() == self.widgets@[i as int]);
                assert(was.last() == before[i as int]);
                assert(replies@.skip(first) =~= earlier + last);
                assert(replies@.take(first) =~= so_far.take(first));
                assert(each_stepped(
                    now.drop_last(),
                    was.drop_last(),
                    old(registry)@,
                    between,
                    earlier,
                    levels as nat,
                ));
                assert(now.last().stepped_from(
                    &was.last(),
                    between,
                    registry@,
                    last,
                    levels as nat,
                ));
                assert(handed_on(between, earlier, last));
                assert(each_stepped(
                    now,
                    was,
                    old(registry)@,
                    registry@,
                    replies@.skip(first),
                    levels as nat,
                ));
            }
            assert forall|j: int| 0 <= j < n implies (#[trigger] self.widgets[j]).wf()
                && self.widgets[j].rect() == before[j].rect() by {
                if j != i {
                    assert(self.widgets[j] == before[j]);
                }
            }
            i += 1;
        }
        proof {
            assert(self.widgets@.take(n as int) =~= self.widgets@);
            assert(old(self).widgets@.take(n as int) =~= old(self).widgets@);
        }
    }

    /// The pointer went down: every child takes the event, in the order of the children.
    pub fn mouse_button_down_event(&mut self, button: MouseButton, x: i32, y: i32)
        requires
            old(self).wf(),
        ensures
            final(self).wf(),
            final(self).pressed_from(old(self), button, x as int, y as int),
            final(self).rect() == old(self).rect(),
            final(self).orientation() == old(self).orientation(),
            final(self).handle() == old(self).handle(),
            each_pressed(final(self).children(), old(self).children(), button, x as int, y as int),
        decreases *old(self), 0nat,
    {
        let n = self.widgets.len();
        let mut i: usize = 0;
        while i < n
            invariant
                i <= n,
                n == self.widgets.len(),
                n == old(self).widgets.len(),
                self.rect == old(self).rect,
                self.orientation == old(self).orientation,
                self.id == old(self).id,
                self.wf(),
                forall|j: int| i <= j < n ==> self.widgets[j] == old(self).widgets[j],
                forall|j: int|
                    0 <= j < i ==> (#[trigger] self.widgets[j]).pressed_from(
                        &old(self).widgets[j],
                        button,
                        x as int,
                        y as int,
                    ),
            decreases n - i,
        {
            let ghost before = self.widgets@;
            let child = &mut self.widgets[i];
            child.mouse_button_down_event(button, x, y);
            assert forall|j: int| 0 <= j < n implies (#[trigger] self.widgets[j]).wf()
                && self.widgets[j].rect() == before[j].rect() by {
                if j != i {
                    assert(self.widgets[j] == before[j]);
                }
            }
            assert forall|j: int| 0 <= j < i + 1 implies (#[trigger] self.widgets[j]).pressed_from(
                &old(self).widgets[j],
                button,
                x as int,
                y as int,
            ) by {
                if j != i {
                    assert(self.widgets[j] == before[j]);
                }
            }
            i += 1;
        }
    }

    /// The pointer came up: every child takes the event, in the order of the children, and
    /// the clicks that fire are handed back in that order.
    pub fn mouse_button_up_event(&mut self, button: MouseButton, x: i32, y: i32) -> (fired: Vec<
        Click,
    >)
        requires
            old(self).wf(),
        ensures
            final(self).wf(),
            final(self).released_from(old(self), button, x as int, y as int),
            final(self).rect() == old(self).rect(),
            final(self).orientation() == old(self).orientation(),
            final(self).handle() == old(self).handle(),
            each_released(final(self).children(), old(self).children(), button, x as int, y as int),
            fired@ == old(self).fires(button, x as int, y as int),
        decreases *old(self), 0nat,
    {
        let mut fired: Vec<Click> = Vec::new();
        let n = self.widgets.len();
        let mut i: usize = 0;
        while i < n
            invariant
                i <= n,
                n == self.widgets.len(),
                n == old(self).widgets.len(),
                self.rect == old(self).rect,
                self.orientation == old(self).orientation,
                self.id == old(self).id,
                self.wf(),
                forall|j: int| i <= j < n ==> self.widgets[j] == old(self).widgets[j],
                forall|j: int|
                    0 <= j < i ==> (#[trigger] self.widgets[j]).released_from(
                        &old(self).widgets[j],
                        button,
                        x as int,
                        y as int,
                    ),
                fired@ == old(self).fires_upto(i as nat, button, x as int, y as int),
            decreases n - i,
        {
            let ghost before = self.widgets@;
            let child = &mut self.widgets[i];
            let mut clicks = child.mouse_button_up_event(button, x, y);
            fired.append(&mut clicks);
            assert forall|j: int| 0 <= j < n implies (#[trigger] self.widgets[j]).wf()
                && self.widgets[j].rect() == before[j].rect() by {
                if j != i {
                    assert(self.widgets[j] == before[j]);
                }
            }
            assert forall|j: int| 0 <= j < i + 1 implies (#[trigger] self.widgets[j]).released_from(
                &old(self).widgets[j],
                button,
                x as int,
                y as int,
            ) by {
                if j != i {
                    assert(self.widgets[j] == before[j]);
                }
            }
            i += 1;
        }
        fired
    }

    /// Destroys the ribbon and everything below it.
    pub fn release(self, registry: &mut Registry<Request>)
        ensures
            final(registry)@ == old(registry)@.remove_keys(self.handles()),
            forall|any: ServiceId| final(registry).issued(any) == old(registry).issued(any),
        decreases self, 0nat,
    {
        let orphans = registry.unregister(self.id);
        assert(registry@ =~= old(registry)@.remove_keys(self.handles_upto(0)));
        let ghost all = self.widgets@;
        let n = self.widgets.len();
        let mut rest = reversed(self.widgets);
        let mut done: usize = 0;
        while rest.len() > 0
            invariant
                all == self.widgets@,
                n == all.len(),
                done + rest@.len() == n,
                forall|i: int| 0 <= i < rest@.len() ==> rest@[i] == all[all.len() - 1 - i],
                registry@ == old(registry)@.remove_keys(self.handles_upto(done as nat)),
                forall|any: ServiceId| registry.issued(any) == old(registry).issued(any),
            decreases rest@.len(),
        {
            let ghost before = registry@;
            match rest.pop() {
                Some(child) => {
                    assert(child == self.widgets[done as int]);
                    child.release(registry);
                    done += 1;
                    assert(registry@ =~= old(registry)@.remove_keys(
                        self.handles_upto(done as nat),
                    ));
                },
                None => {},
            }
        }
    }
}

impl WidgetNode {
    /// Whether the widget and everything below it is well formed.
    pub fn is_wf(&self) -> (ok: bool)
        ensures
            ok == self.wf(),
        decreases self,
    {
        match self {
            WidgetNode::Button(button) => button.is_wf(),
            WidgetNode::Ribbon(ribbon) => ribbon.is_wf(),
            WidgetNode::RadioGroup(_) => true,
        }
    }

    /// A widget's own handle is among the handles below it.
    pub proof fn lemma_holds_own_handle(&self)
        ensures
            self.handles().contains(self.handle()),
    {
        match self {
            WidgetNode::Ribbon(ribbon) => ribbon.lemma_holds_own_handle(ribbon.widgets.len() as nat),
            _ => {},
        }
    }
}

impl Ribbon {
    /// The children of a well-formed ribbon are laid out in its rectangle.
    pub proof fn lemma_laid_out(&self)
        requires
            self.wf(),
        ensures
            laid_out(self.children(), self.rect(), self.orientation()),
    {
        assert forall|i: int| 0 <= i < self.widgets@.len() implies (#[trigger] self.widgets@[i]).wf()
            && self.widgets@[i].rect() == cell(
            self.rect,
            self.orientation,
            self.widgets@.len() as int,
            i,
        ) by {
            assert(self.widgets[i].wf());
        }
    }

    /// A ribbon whose children were only moved has the handles that it had.
    pub proof fn lemma_relaid_keeps_handles(&self, before: &Ribbon, k: nat)
        requires
            self.relaid_from(before),
            k <= self.children().len(),
        ensures
            self.handles_upto(k) == before.handles_upto(k),
        decreases self, k,
    {
        if k > 0 {
            self.lemma_relaid_keeps_handles(before, (k - 1) as nat);
            self.widgets[k - 1].lemma_resized_keeps_handles(&before.widgets[k - 1]);
        }
    }

    /// A ribbon's own handle is among the handles below it.
    pub proof fn lemma_holds_own_handle(&self, k: nat)
        ensures
            self.handles_upto(k).contains(self.handle()),
        decreases k,
    {
        if k > 0 && k <= self.widgets.len() {
            self.lemma_holds_own_handle((k - 1) as nat);
        }
    }

    /// Whether the ribbon is well formed.
    pub fn is_wf(&self) -> (ok: bool)
        ensures
            ok == self.wf(),
        decreases self,
    {
        if !self.rect.is_valid() {
            return false;
        }
        let n = self.widgets.len();
        let mut i: usize = 0;
        while i < n
            invariant
                i <= n,
                n == self.widgets.len(),
                self.rect.valid(),
                forall|j: int| 0 <= j < i ==> (#[trigger] self.widgets[j]).wf(),
                forall|j: int|
                    0 <= j < i ==> (#[trigger] self.widgets[j]).rect() == cell(
                        self.rect,
                        self.orientation,
                        n as int,
                        j,
                    ),
            decreases n - i,
        {
            let place = cell_rect(self.rect, self.orientation, n, i);
            if !self.widgets[i].is_wf() || self.widgets[i].get_rect() != place {
                return false;
            }
            i += 1;
        }
        true
    }

    /// A well-formed ribbon has as many cells as children, and the cells tile its rectangle:
    /// the `i`-th child covers the `i`-th cell, the first child begins at the ribbon's near
    /// edge, every child begins where the one before it ends, the last ends at the ribbon's
    /// far edge, and every child spans the ribbon across its direction.
    pub proof fn lemma_children_tile(&self, i: int)
        requires
            self.wf(),
            0 <= i < self.children().len(),
        ensures
            self.rect().valid(),
            self.children()[i].wf(),
            self.children()[i].rect() == cell(
                self.rect(),
                self.orientation(),
                self.children().len() as int,
                i,
            ),
            near(self.children()[0].rect(), self.orientation()) == near(
                self.rect(),
                self.orientation(),
            ),
            near(self.children()[i].rect(), self.orientation()) + along(
                self.children()[i].rect(),
                self.orientation(),
            ) == if i + 1 < self.children().len() {
                near(self.children()[i + 1].rect(), self.orientation())
            } else {
                near(self.rect(), self.orientation()) + along(self.rect(), self.orientation())
            },
            self.orientation() == RibbonOrientation::Horizontal ==> self.children()[i].rect().y
                == self.rect().y && self.children()[i].rect().h == self.rect().h,
            self.orientation() == RibbonOrientation::Vertical ==> self.children()[i].rect().x
                == self.rect().x && self.children()[i].rect().w == self.rect().w,
    {
        lemma_cells_tile(self.rect, self.orientation, self.widgets.len() as int, i);
        lemma_cells_tile(self.rect, self.orientation, self.widgets.len() as int, 0);
        assert(self.widgets[i].rect() == cell(
            self.rect,
            self.orientation,
            self.widgets.len() as int,
            i,
        ));
        assert(self.widgets[0].rect() == cell(
            self.rect,
            self.orientation,
            self.widgets.len() as int,
            0,
        ));
        if i + 1 < self.widgets.len() {
            assert(self.widgets[i + 1].rect() == cell(
                self.rect,
                self.orientation,
                self.widgets.len() as int,
                i + 1,
            ));
        }
    }
}

/// A widget that was removed from its ribbon is gone for every sender: a request to its
/// handle fails as target gone, and the registry stays as it is.
pub proof fn lemma_send_after_remove(
    children: Seq<WidgetNode>,
    id: ServiceId,
    before: Registry<Request>,
    removed: Registry<Request>,
    after: Registry<Request>,
    envelope: Envelope<Request>,
    sent: Result<(), SendError>,
)
    requires
        first_with(children, id) < children.len(),
        removed@ == before@.remove_keys(children[first_with(children, id)].handles()),
        after.delivered(&removed, id, envelope, sent),
    ensures
        sent == Err::<(), SendError>(SendError::TargetGone),
        after@ == removed@,
{
    lemma_first_with(children, id);
    children[first_with(children, id)].lemma_holds_own_handle();
}

impl RibbonId {
    /// The registry handle behind this ribbon handle.
    pub fn srv_id(self) -> (id: ServiceId)
        ensures
            id == self.0,
    {
        self.0
    }

    /// Asks the ribbon to add the widget behind its children.
    pub fn add_widget(self, registry: &mut Registry<Request>, reply_to: u64, widget: WidgetNode) -> (sent:
        Result<(), SendError>)
        ensures
            final(registry).delivered(
                old(registry),
                self.0,
                (Envelope { reply_to, request: Request::Ribbon(RibbonOp::AddWidget(widget)) }),
                sent,
            ),
    {
        registry.send(self.0, reply_to, Request::Ribbon(RibbonOp::AddWidget(widget)))
    }

    /// Asks the ribbon to remove the child with the handle.
    pub fn remove_widget(self, registry: &mut Registry<Request>, reply_to: u64, srv_id: ServiceId) -> (sent:
        Result<(), SendError>)
        ensures
            final(registry).delivered(
                old(registry),
                self.0,
                (Envelope { reply_to, request: Request::Ribbon(RibbonOp::RemoveWidget(srv_id)) }),
                sent,
            ),
    {
        registry.send(self.0, reply_to, Request::Ribbon(RibbonOp::RemoveWidget(srv_id)))
    }

    /// Asks the ribbon to become a row or a column.
    pub fn set_orientation(
        self,
        registry: &mut Registry<Request>,
        reply_to: u64,
        orientation: RibbonOrientation,
    ) -> (sent: Result<(), SendError>)
        ensures
            final(registry).delivered(
                old(registry),
                self.0,
                (Envelope {
                    reply_to,
                    request: Request::Ribbon(RibbonOp::SetOrientation(orientation)),
                }),
                sent,
            ),
    {
        registry.send(self.0, reply_to, Request::Ribbon(RibbonOp::SetOrientation(orientation)))
    }

    /// Asks the ribbon for its orientation; the answer arrives in the reply slot.
    pub fn get_orientation(self, registry: &mut Registry<Request>, reply_to: u64) -> (sent: Result<
        (),
        SendError,
    >)
        ensures
            final(registry).delivered(
                old(registry),
                self.0,
                (Envelope { reply_to, request: Request::Ribbon(RibbonOp::GetOrientation) }),
                sent,
            ),
    {
        registry.send(self.0, reply_to, Request::Ribbon(RibbonOp::GetOrientation))
    }
}

/// A builder that configures a ribbon step by step.
pub struct RibbonBuilder {
    ribbon: Ribbon,
}

impl RibbonBuilder {
    /// The ribbon that the builder has made so far.
    pub closed spec fn ribbon(&self) -> Ribbon {
        self.ribbon
    }

    /// Starts from a fresh, registered, empty row.
    pub fn new<R>(registry: &mut Registry<R>) -> (builder: Self)
        ensures
            builder.ribbon().wf(),
            builder.ribbon().children() == Seq::<WidgetNode>::empty(),
            builder.ribbon().rect() == (Rect { x: 0, y: 0, w: 0, h: 0 }),
            builder.ribbon().orientation() == RibbonOrientation::Horizontal,
            !old(registry).issued(builder.ribbon().handle()),
            !old(registry).is_live(builder.ribbon().handle()),
            forall|any: ServiceId|
                final(registry).issued(any) == (old(registry).issued(any) || any == builder.ribbon().handle()),
            final(registry)@ == old(registry)@.insert(builder.ribbon().handle(), Seq::empty()),
    {
        Self { ribbon: Ribbon::new(registry) }
    }

    /// Turns the ribbon into a row or a column.
    pub fn set_orientation(self, orientation: RibbonOrientation) -> (builder: Self)
        requires
            self.ribbon().wf(),
        ensures
            builder.ribbon().wf(),
            builder.ribbon().rect() == self.ribbon().rect(),
            builder.ribbon().orientation() == orientation,
            builder.ribbon().handle() == self.ribbon().handle(),
            each_resized(builder.ribbon().children(), self.ribbon().children()),
    {
        let mut builder = self;
        builder.ribbon.set_orientation(orientation);
        builder
    }

    /// Adds a widget behind the other children.
    pub fn add_widget(self, widget: WidgetNode) -> (builder: Self)
        requires
            self.ribbon().wf(),
            widget.wf(),
        ensures
            builder.ribbon().wf(),
            builder.ribbon().rect() == self.ribbon().rect(),
            builder.ribbon().orientation() == self.ribbon().orientation(),
            builder.ribbon().handle() == self.ribbon().handle(),
            each_resized(builder.ribbon().children(), self.ribbon().children().push(widget)),
    {
        let mut builder = self;
        builder.ribbon.add_widget(widget);
        builder
    }

    /// The finished ribbon.
    pub fn build(self) -> (ribbon: Ribbon)
        ensures
            ribbon == self.ribbon(),
    {
        self.ribbon
    }
}

} // verus!
