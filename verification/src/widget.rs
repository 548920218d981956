//! The capability interface that every widget offers to the frame loop and to containers:
//! identity, geometry, the per-frame step and the pointer events.

use crate::button::{Button, ButtonSkin, Click, MouseButton};
use crate::geometry::Rect;
use crate::message::{Request, Response};
use crate::radiogroup::RadioGroup;
use crate::registry::{Envelope, Registry, ServiceId};
use crate::ribbon::{Ribbon, WidgetNode};
use vstd::prelude::*;

verus! {

/// The per-frame step and the pointer events of a widget.
pub trait EventHandlerProxy {
    /// The widget is well formed.
    spec fn sound(&self) -> bool;

    /// This is the widget `before` after its per-frame step on the queues `queues`, which
    /// left the queues `after` and gave the answers `replies`.
    spec fn stepped(
        &self,
        before: &Self,
        queues: Map<ServiceId, Seq<Envelope<Request>>>,
        after: Map<ServiceId, Seq<Envelope<Request>>>,
        replies: Seq<Response>,
    ) -> bool;

    /// This is the widget `before` after the pointer went down.
    spec fn pressed(&self, before: &Self, button: MouseButton, x: int, y: int) -> bool;

    /// This is the widget `before` after the pointer came up.
    spec fn released(&self, before: &Self, button: MouseButton, x: int, y: int) -> bool;

    /// The clicks that fire when the pointer comes up.
    spec fn fired(&self, button: MouseButton, x: int, y: int) -> Seq<Click>;

    /// The per-frame step: the one place where a widget serves the requests that wait for
    /// it. The answers come back in the order in which they were given.
    fn update(&mut self, registry: &mut Registry<Request>) -> (replies: Vec<Response>)
        requires
            old(self).sound(),
        ensures
            final(self).sound(),
            final(self).stepped(old(self), old(registry)@, final(registry)@, replies@),
            forall|any: ServiceId| final(registry).issued(any) == old(registry).issued(any),
    ;

    /// The pointer went down.
    fn mouse_button_down_event(&mut self, button: MouseButton, x: i32, y: i32)
        requires
            old(self).sound(),
        ensures
            final(self).sound(),
            final(self).pressed(old(self), button, x as int, y as int),
    ;

    /// The pointer came up; the clicks that fire are handed back.
    fn mouse_button_up_event(&mut self, button: MouseButton, x: i32, y: i32) -> (clicks: Vec<
        Click,
    >)
        requires
            old(self).sound(),
        ensures
            final(self).sound(),
            final(self).released(old(self), button, x as int, y as int),
            clicks@ == old(self).fired(button, x as int, y as int),
    ;
}

/// A widget: something with a handle and a place on the screen that takes part in the
/// frame loop.
pub trait Widget: EventHandlerProxy {
    /// The widget's registry handle.
    spec fn handle_of(&self) -> ServiceId;

    /// The screen rectangle that the widget covers.
    spec fn rect_of(&self) -> Rect;

    /// This is the widget `before`, moved to another rectangle.
    spec fn moved(&self, before: &Self) -> bool;

    /// The widget's registry handle.
    fn srv_id(&self) -> (id: ServiceId)
        ensures
            id == self.handle_of(),
    ;

    /// Moves the widget to a rectangle.
    fn set_rect(&mut self, rect: Rect)
        requires
            old(self).sound(),
            rect.valid(),
        ensures
            final(self).sound(),
            final(self).rect_of() == rect,
            final(self).handle_of() == old(self).handle_of(),
            final(self).moved(old(self)),
    ;

    /// The screen rectangle that the widget covers.
    fn get_rect(&self) -> (rect: Rect)
        ensures
            rect == self.rect_of(),
    ;
}

/// A composite that acts as the widget at its root: whoever owns a tree of widgets offers
/// the tree's root, and is a widget by that.
pub trait WidgetGroup {
    /// The widget at the root.
    spec fn root_of(&self) -> WidgetNode;

    /// The root, to change it; what is done to it is done to the group's root.
    fn mut_root(&mut self) -> (root: &mut WidgetNode)
        ensures
            *root == old(self).root_of(),
            final(self).root_of() == *final(root),
    ;

    /// The root.
    fn root(&self) -> (root: &WidgetNode)
        ensures
            *root == self.root_of(),
    ;
}

impl<T: WidgetGroup> EventHandlerProxy for T {
    open spec fn sound(&self) -> bool {
        self.root_of().wf()
    }

    open spec fn stepped(
        &self,
        before: &Self,
        queues: Map<ServiceId, Seq<Envelope<Request>>>,
        after: Map<ServiceId, Seq<Envelope<Request>>>,
        replies: Seq<Response>,
    ) -> bool {
        self.root_of().stepped_from(&before.root_of(), queues, after, replies, usize::MAX as nat)
    }

    open spec fn pressed(&self, before: &Self, button: MouseButton, x: int, y: int) -> bool {
        self.root_of().pressed_from(&before.root_of(), button, x, y)
    }

    open spec fn released(&self, before: &Self, button: MouseButton, x: int, y: int) -> bool {
        self.root_of().released_from(&before.root_of(), button, x, y)
    }

    open spec fn fired(&self, button: MouseButton, x: int, y: int) -> Seq<Click> {
        self.root_of().fires(button, x, y)
    }

    fn update(&mut self, registry: &mut Registry<Request>) -> (replies: Vec<Response>) {
        let root = self.mut_root();
        WidgetNode::update(root, registry)
    }

    fn mouse_button_down_event(&mut self, button: MouseButton, x: i32, y: i32) {
        let root = self.mut_root();
        WidgetNode::mouse_button_down_event(root, button, x, y)
    }

    fn mouse_button_up_event(&mut self, button: MouseButton, x: i32, y: i32) -> (clicks: Vec<
        Click,
    >) {
        let root = self.mut_root();
        WidgetNode::mouse_button_up_event(root, button, x, y)
    }
}

impl<T: WidgetGroup> Widget for T {
    open spec fn handle_of(&self) -> ServiceId {
        self.root_of().handle()
    }

    open spec fn rect_of(&self) -> Rect {
        self.root_of().rect()
    }

    open spec fn moved(&self, before: &Self) -> bool {
        self.root_of().resized_from(&before.root_of())
    }

    fn srv_id(&self) -> (id: ServiceId) {
        WidgetNode::srv_id(self.root())
    }

    fn set_rect(&mut self, rect: Rect) {
        let root = self.mut_root();
        WidgetNode::set_rect(root, rect)
    }

    fn get_rect(&self) -> (rect: Rect) {
        WidgetNode::get_rect(self.root())
    }
}

impl<S: ButtonSkin> EventHandlerProxy for Button<S> {
    open spec fn sound(&self) -> bool {
        self.wf()
    }

    open spec fn stepped(
        &self,
        before: &Self,
        queues: Map<ServiceId, Seq<Envelope<Request>>>,
        after: Map<ServiceId, Seq<Envelope<Request>>>,
        replies: Seq<Response>,
    ) -> bool {
        self.stepped_from(before, queues, after, replies)
    }

    open spec fn pressed(&self, before: &Self, button: MouseButton, x: int, y: int) -> bool {
        self.pressed_from(before, button, x, y)
    }

    open spec fn released(&self, before: &Self, button: MouseButton, x: int, y: int) -> bool {
        self.released_from(before, button, x, y)
    }

    open spec fn fired(&self, button: MouseButton, x: int, y: int) -> Seq<Click> {
        self.fires(button, x, y)
    }

    fn update(&mut self, registry: &mut Registry<Request>) -> (replies: Vec<Response>) {
        Button::update(self, registry)
    }

    fn mouse_button_down_event(&mut self, button: MouseButton, x: i32, y: i32) {
        Button::mouse_button_down_event(self, button, x, y)
    }

    fn mouse_button_up_event(&mut self, button: MouseButton, x: i32, y: i32) -> (clicks: Vec<
        Click,
    >) {
        Button::mouse_button_up_event(self, button, x, y)
    }
}

impl<S: ButtonSkin> Widget for Button<S> {
    open spec fn handle_of(&self) -> ServiceId {
        self.handle()
    }

    open spec fn rect_of(&self) -> Rect {
        self.state().rect
    }

    open spec fn moved(&self, before: &Self) -> bool {
        self.resized_from(before)
    }

    fn srv_id(&self) -> (id: ServiceId) {
        Button::srv_id(self)
    }

    fn set_rect(&mut self, rect: Rect) {
        Button::set_rect(self, rect)
    }

    fn get_rect(&self) -> (rect: Rect) {
        Button::get_rect(self)
    }
}

impl EventHandlerProxy for RadioGroup {
    open spec fn sound(&self) -> bool {
        true
    }

    open spec fn stepped(
        &self,
        before: &Self,
        queues: Map<ServiceId, Seq<Envelope<Request>>>,
        after: Map<ServiceId, Seq<Envelope<Request>>>,
        replies: Seq<Response>,
    ) -> bool {
        self.stepped_from(before, queues, after, replies)
    }

    open spec fn pressed(&self, before: &Self, button: MouseButton, x: int, y: int) -> bool {
        *self == *before
    }

    open spec fn released(&self, before: &Self, button: MouseButton, x: int, y: int) -> bool {
        *self == *before
    }

    open spec fn fired(&self, button: MouseButton, x: int, y: int) -> Seq<Click> {
        Seq::empty()
    }

    fn update(&mut self, registry: &mut Registry<Request>) -> (replies: Vec<Response>) {
        RadioGroup::update(self, registry)
    }

    fn mouse_button_down_event(&mut self, button: MouseButton, x: i32, y: i32) {
    }

    fn mouse_button_up_event(&mut self, button: MouseButton, x: i32, y: i32) -> (clicks: Vec<
        Click,
    >) {
        Vec::new()
    }
}

impl Widget for RadioGroup {
    open spec fn handle_of(&self) -> ServiceId {
        self.handle()
    }

    open spec fn rect_of(&self) -> Rect {
        self.rect()
    }

    open spec fn moved(&self, before: &Self) -> bool {
        self.same_but_rect(before)
    }

    fn srv_id(&self) -> (id: ServiceId) {
        RadioGroup::srv_id(self)
    }

    fn set_rect(&mut self, rect: Rect) {
        RadioGroup::set_rect(self, rect)
    }

    fn get_rect(&self) -> (rect: Rect) {
        RadioGroup::get_rect(self)
    }
}

impl EventHandlerProxy for Ribbon {
    open spec fn sound(&self) -> bool {
        self.wf()
    }

    open spec fn stepped(
        &self,
        before: &Self,
        queues: Map<ServiceId, Seq<Envelope<Request>>>,
        after: Map<ServiceId, Seq<Envelope<Request>>>,
        replies: Seq<Response>,
    ) -> bool {
        self.stepped_from(before, queues, after, replies, usize::MAX as nat)
    }

    open spec fn pressed(&self, before: &Self, button: MouseButton, x: int, y: int) -> bool {
        self.pressed_from(before, button, x, y)
    }

    open spec fn released(&self, before: &Self, button: MouseButton, x: int, y: int) -> bool {
        self.released_from(before, button, x, y)
    }

    open spec fn fired(&self, button: MouseButton, x: int, y: int) -> Seq<Click> {
        self.fires(button, x, y)
    }

    fn update(&mut self, registry: &mut Registry<Request>) -> (replies: Vec<Response>) {
        Ribbon::update(self, registry)
    }

    fn mouse_button_down_event(&mut self, button: MouseButton, x: i32, y: i32) {
        Ribbon::mouse_button_down_event(self, button, x, y)
    }

    fn mouse_button_up_event(&mut self, button: MouseButton, x: i32, y: i32) -> (clicks: Vec<
        Click,
    >) {
        Ribbon::mouse_button_up_event(self, button, x, y)
    }
}

impl Widget for Ribbon {
    open spec fn handle_of(&self) -> ServiceId {
        self.handle()
    }

    open spec fn rect_of(&self) -> Rect {
        self.rect()
    }

    open spec fn moved(&self, before: &Self) -> bool {
        self.orientation() == before.orientation() && self.relaid_from(before)
    }

    fn srv_id(&self) -> (id: ServiceId) {
        Ribbon::srv_id(self)
    }

    fn set_rect(&mut self, rect: Rect) {
        Ribbon::set_rect(self, rect)
    }

    fn get_rect(&self) -> (rect: Rect) {
        Ribbon::get_rect(self)
    }
}

impl EventHandlerProxy for WidgetNode {
    open spec fn sound(&self) -> bool {
        self.wf()
    }

    open spec fn stepped(
        &self,
        before: &Self,
        queues: Map<ServiceId, Seq<Envelope<Request>>>,
        after: Map<ServiceId, Seq<Envelope<Request>>>,
        replies: Seq<Response>,
    ) -> bool {
        self.stepped_from(before, queues, after, replies, usize::MAX as nat)
    }

    open spec fn pressed(&self, before: &Self, button: MouseButton, x: int, y: int) -> bool {
        self.pressed_from(before, button, x, y)
    }

    open spec fn released(&self, before: &Self, button: MouseButton, x: int, y: int) -> bool {
        self.released_from(before, button, x, y)
    }

    open spec fn fired(&self, button: MouseButton, x: int, y: int) -> Seq<Click> {
        self.fires(button, x, y)
    }

    fn update(&mut self, registry: &mut Registry<Request>) -> (replies: Vec<Response>) {
        WidgetNode::update(self, registry)
    }

    fn mouse_button_down_event(&mut self, button: MouseButton, x: i32, y: i32) {
        WidgetNode::mouse_button_down_event(self, button, x, y)
    }

    fn mouse_button_up_event(&mut self, button: MouseButton, x: i32, y: i32) -> (clicks: Vec<
        Click,
    >) {
        WidgetNode::mouse_button_up_event(self, button, x, y)
    }
}

impl Widget for WidgetNode {
    open spec fn handle_of(&self) -> ServiceId {
        self.handle()
    }

    open spec fn rect_of(&self) -> Rect {
        self.rect()
    }

    open spec fn moved(&self, before: &Self) -> bool {
        self.resized_from(before)
    }

    fn srv_id(&self) -> (id: ServiceId) {
        WidgetNode::srv_id(self)
    }

    fn set_rect(&mut self, rect: Rect) {
        WidgetNode::set_rect(self, rect)
    }

    fn get_rect(&self) -> (rect: Rect) {
        WidgetNode::get_rect(self)
    }
}

} // verus!
