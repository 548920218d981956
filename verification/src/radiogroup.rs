//! The radio group: a coordinator that is never drawn. It keeps a list of radio buttons
//! that it does not own and, when one of them is clicked into selection, asks every other
//! member to clear its selection.

use crate::button::{ButtonId, ButtonMode, ButtonOp};
use crate::geometry::Rect;
use crate::message::{Reply, Request, Response};
use crate::registry::{emptied, posted, waiting, Envelope, Registry, SendError, ServiceId};
use vstd::prelude::*;

verus! {

/// The members of a radio group, in the order in which they were added.
#[derive(Debug)]
pub struct RadioGroupState {
    buttons: Vec<ButtonId>,
}

impl RadioGroupState {
    /// The members, in the order in which they were added.
    pub closed spec fn members(&self) -> Seq<ButtonId> {
        self.buttons@
    }

    /// A group without members.
    pub fn new() -> (state: Self)
        ensures
            state.members() == Seq::<ButtonId>::empty(),
    {
        Self { buttons: Vec::new() }
    }
}

/// The handle by which other code reaches one radio group.
#[derive(Clone, Copy, Debug, PartialEq, Eq, Structural)]
pub struct RadioGroupId(pub ServiceId);

/// An operation of a radio group's control surface.
#[derive(Clone, Copy, Debug, PartialEq, Eq, Structural)]
pub enum RadioGroupOp {
    /// Takes the button into the group.
    AddRadio(ButtonId),
    /// Forgets the button.
    RemoveRadio(ButtonId),
    /// Reports that the button was clicked and has the given mode now.
    Clicked(ButtonId, ButtonMode),
}

/// The members without every entry for `button`.
pub open spec fn without(members: Seq<ButtonId>, button: ButtonId) -> Seq<ButtonId>
    decreases members.len(),
{
    if members.len() == 0 {
        members
    } else if members.last() == button {
        without(members.drop_last(), button)
    } else {
        without(members.drop_last(), button).push(members.last())
    }
}

/// The request that clears a radio button's selection.
pub open spec fn clear_request(reply_to: u64) -> Envelope<Request> {
    Envelope { reply_to, request: Request::Button(ButtonOp::SetMode(ButtonMode::Radio(false))) }
}

/// The queues after every member but the clicked one was asked to clear its selection.
/// Members that are gone are passed over.
pub open spec fn cleared(
    queues: Map<ServiceId, Seq<Envelope<Request>>>,
    members: Seq<ButtonId>,
    clicked: ButtonId,
    reply_to: u64,
) -> Map<ServiceId, Seq<Envelope<Request>>>
    decreases members.len(),
{
    if members.len() == 0 {
        queues
    } else if members.last() == clicked {
        cleared(queues, members.drop_last(), clicked, reply_to)
    } else {
        posted(
            cleared(queues, members.drop_last(), clicked, reply_to),
            members.last().0,
            clear_request(reply_to),
        )
    }
}

/// The queues after a click on a member was reported: only a click that selects the
/// button makes the group clear the others.
pub open spec fn after_click(
    queues: Map<ServiceId, Seq<Envelope<Request>>>,
    members: Seq<ButtonId>,
    clicked: ButtonId,
    mode: ButtonMode,
    reply_to: u64,
) -> Map<ServiceId, Seq<Envelope<Request>>> {
    if mode == ButtonMode::Radio(true) {
        cleared(queues, members, clicked, reply_to)
    } else {
        queues
    }
}

/// A group's members, the registry's queues and the group's answers after the requests of
/// one frame.
pub struct Coordinated {
    /// The members after the last request.
    pub members: Seq<ButtonId>,
    /// The queues after the last request.
    pub queues: Map<ServiceId, Seq<Envelope<Request>>>,
    /// One answer for each request, in the order of the requests.
    pub replies: Seq<Response>,
}

/// The request by which a group installs its click handler on a new member.
pub open spec fn install_request(token: u64, reply_to: u64) -> Envelope<Request> {
    Envelope { reply_to, request: Request::Button(ButtonOp::OnClick(token)) }
}

/// Serves one request to a group with the given click token and reply slot.
pub open spec fn coordinate_one(
    before: Coordinated,
    envelope: Envelope<Request>,
    token: u64,
    reply_to: u64,
) -> Coordinated {
    match envelope.request {
        Request::RadioGroup(RadioGroupOp::AddRadio(button)) => Coordinated {
            members: before.members.push(button),
            queues: posted(before.queues, button.0, install_request(token, reply_to)),
            replies: before.replies.push(
                Response { reply_to: envelope.reply_to, reply: Reply::Done },
            ),
        },
        Request::RadioGroup(RadioGroupOp::RemoveRadio(button)) => Coordinated {
            members: without(before.members, button),
            queues: before.queues,
            replies: before.replies.push(
                Response { reply_to: envelope.reply_to, reply: Reply::Done },
            ),
        },
        Request::RadioGroup(RadioGroupOp::Clicked(button, mode)) => Coordinated {
            members: before.members,
            queues: after_click(before.queues, before.members, button, mode, reply_to),
            replies: before.replies.push(
                Response { reply_to: envelope.reply_to, reply: Reply::Done },
            ),
        },
        _ => Coordinated {
            replies: before.replies.push(
                Response { reply_to: envelope.reply_to, reply: Reply::Unsupported },
            ),
            ..before
        },
    }
}

/// Serves the requests one after the other, oldest first.
pub open spec fn coordinate_all(
    members: Seq<ButtonId>,
    queues: Map<ServiceId, Seq<Envelope<Request>>>,
    requests: Seq<Envelope<Request>>,
    token: u64,
    reply_to: u64,
) -> Coordinated
    decreases requests.len(),
{
    if requests.len() == 0 {
        Coordinated { members, queues, replies: Seq::empty() }
    } else {
        coordinate_one(
            coordinate_all(members, queues, requests.drop_last(), token, reply_to),
            requests.last(),
            token,
            reply_to,
        )
    }
}

/// A radio group with its registry handle, its members, the token of the click handler
/// that it installs on each member, and the reply slot of its own requests.
#[derive(Debug)]
pub struct RadioGroup {
    id: ServiceId,
    state: RadioGroupState,
    click_token: u64,
    reply_to: u64,
    rect: Rect,
}

impl RadioGroup {
    /// The group's registry handle.
    pub closed spec fn handle(&self) -> ServiceId {
        self.id
    }

    /// The members, in the order in which they were added.
    pub closed spec fn members(&self) -> Seq<ButtonId> {
        self.state.buttons@
    }

    /// The token of the click handler that the group installs on its members.
    pub closed spec fn token(&self) -> u64 {
        self.click_token
    }

    /// The reply slot that the group's own requests name.
    pub closed spec fn reply_slot(&self) -> u64 {
        self.reply_to
    }

    /// The cell that a ribbon gave the group. Nothing is drawn there.
    pub closed spec fn rect(&self) -> Rect {
        self.rect
    }

    /// The same group as `before`, wherever it was placed.
    pub open spec fn same_but_rect(&self, before: &Self) -> bool {
        &&& self.handle() == before.handle()
        &&& self.members() == before.members()
        &&& self.token() == before.token()
        &&& self.reply_slot() == before.reply_slot()
    }

    /// A group without members, registered under a handle of its own.
    pub fn new<R>(registry: &mut Registry<R>, click_token: u64, reply_to: u64) -> (group: Self)
        ensures
            group.members() == Seq::<ButtonId>::empty(),
            group.rect() == (Rect { x: 0, y: 0, w: 0, h: 0 }),
            group.token() == click_token,
            group.reply_slot() == reply_to,
            !old(registry).issued(group.handle()),
            !old(registry).is_live(group.handle()),
            forall|any: ServiceId|
                final(registry).issued(any) == (old(registry).issued(any) || any == group.handle()),
            final(registry)@ == old(registry)@.insert(group.handle(), Seq::empty()),
    {
        RadioGroup {
            id: registry.register(),
            state: RadioGroupState::new(),
            click_token,
            reply_to,
            rect: Rect { x: 0, y: 0, w: 0, h: 0 },
        }
    }

    /// The handle by which other code reaches this group.
    pub fn id(&self) -> (id: RadioGroupId)
        ensures
            id == RadioGroupId(self.handle()),
    {
        RadioGroupId(self.id)
    }

    /// The group's registry handle.
    pub fn srv_id(&self) -> (id: ServiceId)
        ensures
            id == self.handle(),
    {
        self.id
    }

    /// Takes the cell that a ribbon gives the group.
    pub fn set_rect(&mut self, rect: Rect)
        ensures
            final(self).rect() == rect,
            final(self).same_but_rect(old(self)),
    {
        self.rect = rect;
    }

    /// The cell that a ribbon gave the group.
    pub fn get_rect(&self) -> (rect: Rect)
        ensures
            rect == self.rect(),
    {
        self.rect
    }

    /// The members, in the order in which they were added.
    pub fn buttons(&self) -> (members: Vec<ButtonId>)
        ensures
            members@ == self.members(),
    {
        let n = self.state.buttons.len();
        let mut members: Vec<ButtonId> = Vec::new();
        let mut i: usize = 0;
        while i < n
            invariant
                n == self.state.buttons@.len(),
                i <= n,
                members@ == self.state.buttons@.take(i as int),
            decreases n - i,
        {
            members.push(self.state.buttons[i]);
            i += 1;
            assert(members@ =~= self.state.buttons@.take(i as int));
        }
        assert(members@ =~= self.state.buttons@);
        members
    }

    /// Takes the button into the group and asks it to install the group's click handler.
    /// A button that is gone becomes a member all the same.
    pub fn add_radio(&mut self, button: ButtonId, registry: &mut Registry<Request>)
        ensures
            final(self).members() == old(self).members().push(button),
            final(registry)@ == posted(
                old(registry)@,
                button.0,
                install_request(old(self).token(), old(self).reply_slot()),
            ),
            forall|any: ServiceId| final(registry).issued(any) == old(registry).issued(any),
            final(self).handle() == old(self).handle(),
            final(self).token() == old(self).token(),
            final(self).reply_slot() == old(self).reply_slot(),
            final(self).rect() == old(self).rect(),
    {
        self.state.buttons.push(button);
        let sent = button.on_click(registry, self.reply_to, self.click_token);
    }

    /// Forgets the button: every entry for it leaves the list. The handler that the group
    /// installed on the button stays there.
    pub fn remove_radio(&mut self, button: ButtonId)
        ensures
            final(self).members() == without(old(self).members(), button),
            final(self).handle() == old(self).handle(),
            final(self).token() == old(self).token(),
            final(self).reply_slot() == old(self).reply_slot(),
            final(self).rect() == old(self).rect(),
    {
        let mut kept: Vec<ButtonId> = Vec::new();
        let n = self.state.buttons.len();
        let mut i: usize = 0;
        while i < n
            invariant
                n == self.state.buttons@.len(),
                i <= n,
                *self == *old(self),
                kept@ == without(self.state.buttons@.take(i as int), button),
            decreases n - i,
        {
            let member = self.state.buttons[i];
            assert(self.state.buttons@.take(i + 1).drop_last() =~= self.state.buttons@.take(
                i as int,
            ));
            if member != button {
                kept.push(member);
            }
            i += 1;
        }
        assert(self.state.buttons@.take(n as int) =~= self.state.buttons@);
        self.state.buttons = kept;
    }

    /// A member was clicked. If the click selected it, every other member is asked to clear
    /// its selection; members that are gone are passed over in silence.
    pub fn clicked(&self, button: ButtonId, mode: ButtonMode, registry: &mut Registry<Request>)
        ensures
            final(registry)@ == after_click(
                old(registry)@,
                self.members(),
                button,
                mode,
                self.reply_slot(),
            ),
            forall|any: ServiceId| final(registry).issued(any) == old(registry).issued(any),
    {
        if mode == ButtonMode::Radio(true) {
            let n = self.state.buttons.len();
            let mut i: usize = 0;
            while i < n
                invariant
                    n == self.state.buttons@.len(),
                    i <= n,
                    registry@ == cleared(
                        old(registry)@,
                        self.state.buttons@.take(i as int),
                        button,
                        self.reply_to,
                    ),
                    forall|any: ServiceId| registry.issued(any) == old(registry).issued(any),
                decreases n - i,
            {
                let member = self.state.buttons[i];
                assert(self.state.buttons@.take(i + 1).drop_last() =~= self.state.buttons@.take(
                    i as int,
                ));
                if member != button {
                    let sent = member.set_mode(registry, self.reply_to, ButtonMode::Radio(false));
                }
                i += 1;
            }
            assert(self.state.buttons@.take(n as int) =~= self.state.buttons@);
        }
    }

    /// Applies one operation of the control surface.
    pub fn serve(&mut self, op: RadioGroupOp, registry: &mut Registry<Request>)
        ensures
            final(self).members() == match op {
                RadioGroupOp::AddRadio(button) => old(self).members().push(button),
                RadioGroupOp::RemoveRadio(button) => without(old(self).members(), button),
                RadioGroupOp::Clicked(_, _) => old(self).members(),
            },
            final(registry)@ == match op {
                RadioGroupOp::AddRadio(button) => posted(
                    old(registry)@,
                    button.0,
                    install_request(old(self).token(), old(self).reply_slot()),
                ),
                RadioGroupOp::RemoveRadio(button) => old(registry)@,
                RadioGroupOp::Clicked(button, mode) => after_click(
                    old(registry)@,
                    old(self).members(),
                    button,
                    mode,
                    old(self).reply_slot(),
                ),
            },
            forall|any: ServiceId| final(registry).issued(any) == old(registry).issued(any),
            final(self).handle() == old(self).handle(),
            final(self).token() == old(self).token(),
            final(self).reply_slot() == old(self).reply_slot(),
            final(self).rect() == old(self).rect(),
    {
        match op {
            RadioGroupOp::AddRadio(button) => self.add_radio(button, registry),
            RadioGroupOp::RemoveRadio(button) => self.remove_radio(button),
            RadioGroupOp::Clicked(button, mode) => self.clicked(button, mode, registry),
        }
    }

    /// This is the group `before` after its per-frame step on the given queues: it has
    /// served what waited for it, oldest first.
    pub open spec fn stepped_from(
        &self,
        before: &Self,
        queues: Map<ServiceId, Seq<Envelope<Request>>>,
        after: Map<ServiceId, Seq<Envelope<Request>>>,
        replies: Seq<Response>,
    ) -> bool {
        let served = coordinate_all(
            before.members(),
            emptied(queues, before.handle()),
            waiting(queues, before.handle()),
            before.token(),
            before.reply_slot(),
        );
        &&& self.members() == served.members
        &&& after == served.queues
        &&& replies == served.replies
        &&& self.handle() == before.handle()
        &&& self.token() == before.token()
        &&& self.reply_slot() == before.reply_slot()
        &&& self.rect() == before.rect()
    }

    /// The per-frame step: serves every request that waits for this group, oldest first,
    /// and answers each exactly once.
    pub fn update(&mut self, registry: &mut Registry<Request>) -> (replies: Vec<Response>)
        ensures
            final(self).stepped_from(old(self), old(registry)@, final(registry)@, replies@),
            forall|any: ServiceId| final(registry).issued(any) == old(registry).issued(any),
    {
        let mut rest = crate::message::reversed(registry.drain(self.id));
        let ghost all = old(registry).pending(old(self).handle());
        let ghost start = registry@;
        let mut replies: Vec<Response> = Vec::new();
        let n = rest.len();
        let mut served: usize = 0;
        while rest.len() > 0
            invariant
                self.id == old(self).id,
                self.click_token == old(self).click_token,
                self.reply_to == old(self).reply_to,
                self.rect == old(self).rect,
                n == all.len(),
                served + rest@.len() == n,
                forall|i: int| 0 <= i < rest@.len() ==> rest@[i] == all[all.len() - 1 - i],
                forall|any: ServiceId| registry.issued(any) == old(registry).issued(any),
                coordinate_all(
                    old(self).members(),
                    start,
                    all.take(served as int),
                    self.click_token,
                    self.reply_to,
                ) == (Coordinated {
                    members: self.members(),
                    queues: registry@,
                    replies: replies@,
                }),
            decreases rest@.len(),
        {
            match rest.pop() {
                Some(envelope) => {
                    assert(envelope == all[served as int]);
                    assert(all.take(served + 1).drop_last() =~= all.take(served as int));
                    assert(all.take(served + 1).last() == envelope);
                    let reply_to = envelope.reply_to;
                    let reply = match envelope.request {
                        Request::RadioGroup(op) => {
                            self.serve(op, registry);
                            Reply::Done
                        },
                        _ => Reply::Unsupported,
                    };
                    replies.push(Response { reply_to, reply });
                    served += 1;
                },
                None => {},
            }
        }
        assert(all.take(n as int) =~= all);
        replies
    }
}

/// After a selecting click on one member, the last request that waits for every other
/// live member is the one that clears its selection.
pub proof fn lemma_others_are_cleared(
    queues: Map<ServiceId, Seq<Envelope<Request>>>,
    members: Seq<ButtonId>,
    clicked: ButtonId,
    reply_to: u64,
    other: ButtonId,
)
    requires
        members.contains(other),
        other != clicked,
        queues.contains_key(other.0),
    ensures
        cleared(queues, members, clicked, reply_to).contains_key(other.0),
        cleared(queues, members, clicked, reply_to)[other.0].len() > 0,
        cleared(queues, members, clicked, reply_to)[other.0].last() == clear_request(reply_to),
    decreases members.len(),
{
    lemma_cleared_keeps_handles(queues, members, clicked, reply_to);
    let earlier = members.drop_last();
    lemma_cleared_keeps_handles(queues, earlier, clicked, reply_to);
    if members.last() != clicked && members.last().0 == other.0 {
    } else {
        let at = choose|i: int| 0 <= i < members.len() && members[i] == other;
        assert(earlier[at] == other);
        lemma_others_are_cleared(queues, earlier, clicked, reply_to, other);
    }
}

/// Mutual exclusion, one frame later: after a selecting click on one member, every other
/// live member is unselected as soon as it has served what waits for it, whatever its mode
/// was and whatever else waited for it.
pub proof fn lemma_click_unselects_others(
    queues: Map<ServiceId, Seq<Envelope<Request>>>,
    members: Seq<ButtonId>,
    clicked: ButtonId,
    reply_to: u64,
    other: ButtonId,
    state: crate::button::ButtonState,
    pairs: Seq<(usize, u64)>,
)
    requires
        members.contains(other),
        other != clicked,
        queues.contains_key(other.0),
    ensures
        crate::button::serve_all(
            state,
            pairs,
            after_click(queues, members, clicked, ButtonMode::Radio(true), reply_to)[other.0],
        ).state.mode == ButtonMode::Radio(false),
        queues.contains_key(clicked.0) ==> after_click(
            queues,
            members,
            clicked,
            ButtonMode::Radio(true),
            reply_to,
        )[clicked.0] == queues[clicked.0],
{
    lemma_others_are_cleared(queues, members, clicked, reply_to, other);
    lemma_cleared_keeps_handles(queues, members, clicked, reply_to);
    crate::button::lemma_last_mode_wins(
        state,
        pairs,
        cleared(queues, members, clicked, reply_to)[other.0],
        ButtonMode::Radio(false),
    );
}

/// Clearing the others neither makes a handle resolve nor stops one from resolving, and
/// the clicked member receives nothing.
pub proof fn lemma_cleared_keeps_handles(
    queues: Map<ServiceId, Seq<Envelope<Request>>>,
    members: Seq<ButtonId>,
    clicked: ButtonId,
    reply_to: u64,
)
    ensures
        cleared(queues, members, clicked, reply_to).dom() == queues.dom(),
        queues.contains_key(clicked.0) ==> cleared(queues, members, clicked, reply_to)[clicked.0]
            == queues[clicked.0],
    decreases members.len(),
{
    if members.len() > 0 {
        lemma_cleared_keeps_handles(queues, members.drop_last(), clicked, reply_to);
        let inner = cleared(queues, members.drop_last(), clicked, reply_to);
        assert(cleared(queues, members, clicked, reply_to).dom() =~= inner.dom());
    }
}

/// A builder that configures a radio group step by step.
pub struct RadioGroupBuilder {
    radio_group: RadioGroup,
}

impl RadioGroupBuilder {
    /// The group that the builder has made so far.
    pub closed spec fn group(&self) -> RadioGroup {
        self.radio_group
    }

    /// Starts from a fresh, registered group without members.
    pub fn new<R>(registry: &mut Registry<R>, click_token: u64, reply_to: u64) -> (builder: Self)
        ensures
            builder.group().members() == Seq::<ButtonId>::empty(),
            builder.group().token() == click_token,
            builder.group().reply_slot() == reply_to,
            !old(registry).issued(builder.group().handle()),
            !old(registry).is_live(builder.group().handle()),
            forall|any: ServiceId|
                final(registry).issued(any) == (old(registry).issued(any) || any == builder.group().handle()),
            final(registry)@ == old(registry)@.insert(builder.group().handle(), Seq::empty()),
    {
        RadioGroupBuilder { radio_group: RadioGroup::new(registry, click_token, reply_to) }
    }

    /// Takes the button into the group and asks it to install the group's click handler.
    pub fn add_radio(self, button: ButtonId, registry: &mut Registry<Request>) -> (builder: Self)
        ensures
            builder.group().members() == self.group().members().push(button),
            final(registry)@ == posted(
                old(registry)@,
                button.0,
                install_request(self.group().token(), self.group().reply_slot()),
            ),
            forall|any: ServiceId| final(registry).issued(any) == old(registry).issued(any),
            builder.group().handle() == self.group().handle(),
            builder.group().token() == self.group().token(),
            builder.group().reply_slot() == self.group().reply_slot(),
    {
        let mut builder = self;
        builder.radio_group.add_radio(button, registry);
        builder
    }

    /// Forgets the button.
    pub fn remove_radio(self, button: ButtonId) -> (builder: Self)
        ensures
            builder.group().members() == without(self.group().members(), button),
            builder.group().handle() == self.group().handle(),
            builder.group().token() == self.group().token(),
            builder.group().reply_slot() == self.group().reply_slot(),
    {
        let mut builder = self;
        builder.radio_group.remove_radio(button);
        builder
    }

    /// The finished group.
    pub fn build(self) -> (group: RadioGroup)
        ensures
            group == self.group(),
    {
        self.radio_group
    }
}

impl RadioGroupId {
    /// The registry handle behind this group handle.
    pub fn srv_id(self) -> (id: ServiceId)
        ensures
            id == self.0,
    {
        self.0
    }

    /// Asks the group to take the button in.
    pub fn add_radio(self, registry: &mut Registry<Request>, reply_to: u64, button: ButtonId) -> (sent:
        Result<(), SendError>)
        ensures
            final(registry).delivered(
                old(registry),
                self.0,
                (Envelope {
                    reply_to,
                    request: Request::RadioGroup(RadioGroupOp::AddRadio(button)),
                }),
                sent,
            ),
    {
        registry.send(self.0, reply_to, Request::RadioGroup(RadioGroupOp::AddRadio(button)))
    }

    /// Asks the group to forget the button.
    pub fn remove_radio(
        self,
        registry: &mut Registry<Request>,
        reply_to: u64,
        button: ButtonId,
    ) -> (sent: Result<(), SendError>)
        ensures
            final(registry).delivered(
                old(registry),
                self.0,
                (Envelope {
                    reply_to,
                    request: Request::RadioGroup(RadioGroupOp::RemoveRadio(button)),
                }),
                sent,
            ),
    {
        registry.send(self.0, reply_to, Request::RadioGroup(RadioGroupOp::RemoveRadio(button)))
    }

    /// Reports to the group that the button was clicked and has the given mode now.
    pub fn clicked(
        self,
        registry: &mut Registry<Request>,
        reply_to: u64,
        button: ButtonId,
        mode: ButtonMode,
    ) -> (sent: Result<(), SendError>)
        ensures
            final(registry).delivered(
                old(registry),
                self.0,
                (Envelope {
                    reply_to,
                    request: Request::RadioGroup(RadioGroupOp::Clicked(button, mode)),
                }),
                sent,
            ),
    {
        registry.send(self.0, reply_to, Request::RadioGroup(RadioGroupOp::Clicked(button, mode)))
    }
}

} // verus!
