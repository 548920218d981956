use yorool_gui::button::{Button, ButtonId, ButtonMode, Click, MouseButton};
use yorool_gui::default_skin::DefaultButtonSkin;
use yorool_gui::geometry::Rect;
use yorool_gui::message::{Reply, Request, Response};
use yorool_gui::radiogroup::{RadioGroup, RadioGroupBuilder, RadioGroupOp};
use yorool_gui::registry::{Registry, SendError};

const TOKEN: u64 = 4000;
const SLOT: u64 = 99;

fn radio(registry: &mut Registry<Request>, selected: bool) -> Button<DefaultButtonSkin> {
    let mut button = Button::new(registry, DefaultButtonSkin::new());
    button.set_mode(ButtonMode::Radio(selected));
    button.set_rect(Rect::new(0, 0, 100, 50));
    button.update(registry);
    button
}

fn click(button: &mut Button<DefaultButtonSkin>) -> Vec<Click> {
    button.mouse_button_down_event(MouseButton::Left, 50, 25);
    button.mouse_button_up_event(MouseButton::Left, 50, 25)
}

fn report(registry: &mut Registry<Request>, group: &RadioGroup, clicks: Vec<Click>) {
    for c in clicks {
        if c.token == TOKEN {
            group.id().clicked(registry, SLOT, ButtonId(c.source), c.mode).unwrap();
        }
    }
}

#[test]
fn clicking_one_radio_clears_the_others() {
    let mut registry: Registry<Request> = Registry::new();
    let mut a = radio(&mut registry, false);
    let mut b = radio(&mut registry, true);
    let mut c = radio(&mut registry, true);
    let mut group = RadioGroup::new(&mut registry, TOKEN, SLOT);
    group.add_radio(a.id(), &mut registry);
    group.add_radio(b.id(), &mut registry);
    group.add_radio(c.id(), &mut registry);
    a.update(&mut registry);
    b.update(&mut registry);
    c.update(&mut registry);
    assert_eq!(a.click_tokens(), vec![TOKEN]);

    let clicks = click(&mut a);
    assert_eq!(clicks, vec![Click { source: a.srv_id(), mode: ButtonMode::Radio(true), token: TOKEN }]);
    report(&mut registry, &group, clicks);
    group.update(&mut registry);
    a.update(&mut registry);
    b.update(&mut registry);
    c.update(&mut registry);
    assert_eq!(a.get_mode(), ButtonMode::Radio(true));
    assert_eq!(b.get_mode(), ButtonMode::Radio(false));
    assert_eq!(c.get_mode(), ButtonMode::Radio(false));

    let clicks = click(&mut b);
    report(&mut registry, &group, clicks);
    group.update(&mut registry);
    a.update(&mut registry);
    b.update(&mut registry);
    c.update(&mut registry);
    assert_eq!(b.get_mode(), ButtonMode::Radio(true));
    assert_eq!(a.get_mode(), ButtonMode::Radio(false));
    assert_eq!(c.get_mode(), ButtonMode::Radio(false));
}

#[test]
fn a_click_that_unselects_clears_nobody() {
    let mut registry: Registry<Request> = Registry::new();
    let a = radio(&mut registry, false);
    let mut b = radio(&mut registry, true);
    let mut group = RadioGroup::new(&mut registry, TOKEN, SLOT);
    group.add_radio(a.id(), &mut registry);
    group.add_radio(b.id(), &mut registry);
    b.update(&mut registry);
    group.clicked(a.id(), ButtonMode::Radio(false), &mut registry);
    assert!(b.update(&mut registry).is_empty());
    assert_eq!(b.get_mode(), ButtonMode::Radio(true));
}

#[test]
fn the_clicked_member_receives_nothing() {
    let mut registry: Registry<Request> = Registry::new();
    let mut a = radio(&mut registry, true);
    let mut b = radio(&mut registry, true);
    let mut group = RadioGroup::new(&mut registry, TOKEN, SLOT);
    group.add_radio(a.id(), &mut registry);
    group.add_radio(b.id(), &mut registry);
    a.update(&mut registry);
    b.update(&mut registry);
    group.clicked(a.id(), ButtonMode::Radio(true), &mut registry);
    assert!(a.update(&mut registry).is_empty());
    assert_eq!(b.update(&mut registry), vec![Response { reply_to: SLOT, reply: Reply::Done }]);
    assert_eq!(a.get_mode(), ButtonMode::Radio(true));
    assert_eq!(b.get_mode(), ButtonMode::Radio(false));
}

#[test]
fn members_that_are_gone_are_passed_over() {
    let mut registry: Registry<Request> = Registry::new();
    let a = radio(&mut registry, true);
    let b = radio(&mut registry, true);
    let mut c = radio(&mut registry, true);
    let mut group = RadioGroup::new(&mut registry, TOKEN, SLOT);
    group.add_radio(a.id(), &mut registry);
    group.add_radio(b.id(), &mut registry);
    group.add_radio(c.id(), &mut registry);
    c.update(&mut registry);
    registry.unregister(b.srv_id());
    group.clicked(a.id(), ButtonMode::Radio(true), &mut registry);
    c.update(&mut registry);
    assert_eq!(c.get_mode(), ButtonMode::Radio(false));
    assert_eq!(group.buttons(), vec![a.id(), b.id(), c.id()]);
    assert_eq!(b.id().set_mode(&mut registry, 0, ButtonMode::Radio(false)), Err(SendError::TargetGone));
}

#[test]
fn a_member_that_is_gone_can_still_be_added() {
    let mut registry: Registry<Request> = Registry::new();
    let a = radio(&mut registry, true);
    registry.unregister(a.srv_id());
    let mut group = RadioGroup::new(&mut registry, TOKEN, SLOT);
    group.add_radio(a.id(), &mut registry);
    assert_eq!(group.buttons(), vec![a.id()]);
}

#[test]
fn remove_radio_forgets_the_button_and_leaves_its_handler() {
    let mut registry: Registry<Request> = Registry::new();
    let mut a = radio(&mut registry, false);
    let mut b = radio(&mut registry, true);
    let mut group = RadioGroup::new(&mut registry, TOKEN, SLOT);
    group.add_radio(a.id(), &mut registry);
    group.add_radio(b.id(), &mut registry);
    a.update(&mut registry);
    b.update(&mut registry);
    group.remove_radio(b.id());
    assert_eq!(group.buttons(), vec![a.id()]);
    assert_eq!(b.click_tokens(), vec![TOKEN]);
    group.clicked(a.id(), ButtonMode::Radio(true), &mut registry);
    assert!(b.update(&mut registry).is_empty());
    assert_eq!(b.get_mode(), ButtonMode::Radio(true));
    group.remove_radio(b.id());
    assert_eq!(group.buttons(), vec![a.id()]);
}

#[test]
fn the_group_serves_its_own_requests_in_order() {
    let mut registry: Registry<Request> = Registry::new();
    let mut a = radio(&mut registry, true);
    let mut b = radio(&mut registry, true);
    let mut group = RadioGroup::new(&mut registry, TOKEN, SLOT);
    let id = group.id();
    assert_eq!(id.srv_id(), group.srv_id());
    id.add_radio(&mut registry, 1, a.id()).unwrap();
    id.add_radio(&mut registry, 2, b.id()).unwrap();
    id.clicked(&mut registry, 3, a.id(), ButtonMode::Radio(true)).unwrap();
    id.remove_radio(&mut registry, 4, a.id()).unwrap();
    registry.send(group.srv_id(), 5, Request::Button(yorool_gui::button::ButtonOp::GetMode)).unwrap();
    let replies = group.update(&mut registry);
    assert_eq!(
        replies,
        vec![
            Response { reply_to: 1, reply: Reply::Done },
            Response { reply_to: 2, reply: Reply::Done },
            Response { reply_to: 3, reply: Reply::Done },
            Response { reply_to: 4, reply: Reply::Done },
            Response { reply_to: 5, reply: Reply::Unsupported },
        ]
    );
    assert_eq!(group.buttons(), vec![b.id()]);
    a.update(&mut registry);
    b.update(&mut registry);
    assert_eq!(a.get_mode(), ButtonMode::Radio(true));
    assert_eq!(b.get_mode(), ButtonMode::Radio(false));
    assert_eq!(a.click_tokens(), vec![TOKEN]);
    assert_eq!(b.click_tokens(), vec![TOKEN]);
}

#[test]
fn serve_applies_one_group_operation() {
    let mut registry: Registry<Request> = Registry::new();
    let a = radio(&mut registry, true);
    let mut group = RadioGroup::new(&mut registry, TOKEN, SLOT);
    group.serve(RadioGroupOp::AddRadio(a.id()), &mut registry);
    assert_eq!(group.buttons(), vec![a.id()]);
    group.serve(RadioGroupOp::RemoveRadio(a.id()), &mut registry);
    assert!(group.buttons().is_empty());
}

#[test]
fn requests_to_a_group_that_is_gone_fail() {
    let mut registry: Registry<Request> = Registry::new();
    let a = radio(&mut registry, true);
    let group = RadioGroup::new(&mut registry, TOKEN, SLOT);
    let id = group.id();
    registry.unregister(group.srv_id());
    assert_eq!(id.add_radio(&mut registry, 1, a.id()), Err(SendError::TargetGone));
    assert_eq!(id.remove_radio(&mut registry, 1, a.id()), Err(SendError::TargetGone));
    assert_eq!(
        id.clicked(&mut registry, 1, a.id(), ButtonMode::Radio(true)),
        Err(SendError::TargetGone)
    );
}

#[test]
fn the_builder_configures_a_group() {
    let mut registry: Registry<Request> = Registry::new();
    let a = radio(&mut registry, true);
    let b = radio(&mut registry, true);
    let mut group = RadioGroupBuilder::new(&mut registry, TOKEN, SLOT)
        .add_radio(a.id(), &mut registry)
        .add_radio(b.id(), &mut registry)
        .remove_radio(a.id())
        .build();
    assert_eq!(group.buttons(), vec![b.id()]);
    assert!(registry.resolves(group.srv_id()));
    group.set_rect(Rect::new(1, 2, 3, 4));
    assert_eq!(group.get_rect(), Rect::new(1, 2, 3, 4));
}
