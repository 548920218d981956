use yorool_gui::button::{Button, ButtonMode, Click, MouseButton};
use yorool_gui::default_skin::DefaultButtonSkin;
use yorool_gui::geometry::Rect;
use yorool_gui::message::{Reply, Request, Response};
use yorool_gui::radiogroup::RadioGroup;
use yorool_gui::registry::Registry;
use yorool_gui::ribbon::{Ribbon, WidgetNode};
use yorool_gui::widget::{EventHandlerProxy, Widget, WidgetGroup};

struct Panel {
    root: WidgetNode,
}

impl WidgetGroup for Panel {
    fn root_of(&self) -> WidgetNode {
        unreachable!("only proofs speak of the root by this name")
    }
    fn mut_root(&mut self) -> &mut WidgetNode {
        &mut self.root
    }
    fn root(&self) -> &WidgetNode {
        &self.root
    }
}

fn click_through<W: Widget>(widget: &mut W, registry: &mut Registry<Request>) -> Vec<Click> {
    widget.set_rect(Rect::new(0, 0, 100, 50));
    widget.update(registry);
    widget.mouse_button_down_event(MouseButton::Left, 50, 25);
    widget.mouse_button_up_event(MouseButton::Left, 50, 25)
}

fn checkbox(registry: &mut Registry<Request>, token: u64) -> Button<DefaultButtonSkin> {
    let mut button = Button::new(registry, DefaultButtonSkin::new());
    button.set_mode(ButtonMode::Checkbox(false));
    button.on_click(token);
    button
}

#[test]
fn a_button_is_a_widget() {
    let mut registry: Registry<Request> = Registry::new();
    let mut button = checkbox(&mut registry, 3);
    let id = Widget::srv_id(&button);
    let fired = click_through(&mut button, &mut registry);
    assert_eq!(fired, vec![Click { source: id, mode: ButtonMode::Checkbox(true), token: 3 }]);
    assert_eq!(Widget::get_rect(&button), Rect::new(0, 0, 100, 50));
}

#[test]
fn a_ribbon_is_a_widget() {
    let mut registry: Registry<Request> = Registry::new();
    let button = checkbox(&mut registry, 4);
    let id = button.srv_id();
    let mut ribbon = Ribbon::new(&mut registry);
    ribbon.add_widget(WidgetNode::Button(button));
    let fired = click_through(&mut ribbon, &mut registry);
    assert_eq!(fired, vec![Click { source: id, mode: ButtonMode::Checkbox(true), token: 4 }]);
    assert_eq!(Widget::get_rect(&ribbon), Rect::new(0, 0, 100, 50));
    assert_eq!(Widget::srv_id(&ribbon), ribbon.id().srv_id());
}

#[test]
fn a_radio_group_is_a_widget_that_ignores_the_pointer() {
    let mut registry: Registry<Request> = Registry::new();
    let mut group = RadioGroup::new(&mut registry, 1, 2);
    assert!(click_through(&mut group, &mut registry).is_empty());
    assert_eq!(Widget::get_rect(&group), Rect::new(0, 0, 100, 50));
    assert_eq!(Widget::srv_id(&group), group.id().srv_id());
}

#[test]
fn a_group_acts_as_its_root() {
    let mut registry: Registry<Request> = Registry::new();
    let button = checkbox(&mut registry, 5);
    let id = button.id();
    let mut panel = Panel { root: WidgetNode::Button(button) };
    assert_eq!(Widget::srv_id(&panel), id.srv_id());
    id.get_mode(&mut registry, 8).unwrap();
    panel.set_rect(Rect::new(0, 0, 100, 50));
    let replies = EventHandlerProxy::update(&mut panel, &mut registry);
    assert_eq!(
        replies,
        vec![Response { reply_to: 8, reply: Reply::Mode(ButtonMode::Checkbox(false)) }]
    );
    panel.mouse_button_down_event(MouseButton::Left, 50, 25);
    let fired = panel.mouse_button_up_event(MouseButton::Left, 50, 25);
    assert_eq!(
        fired,
        vec![Click { source: id.srv_id(), mode: ButtonMode::Checkbox(true), token: 5 }]
    );
    assert_eq!(panel.get_rect(), Rect::new(0, 0, 100, 50));
    assert_eq!(panel.root().get_rect(), Rect::new(0, 0, 100, 50));
}
