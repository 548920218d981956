use yorool_gui::button::{
    Button, ButtonBuilder, ButtonMode, ButtonOp, ButtonSkin, ButtonState, Click, MouseButton,
};
use yorool_gui::default_skin::{base_rect, button_rect, DefaultButtonSkin};
use yorool_gui::geometry::Rect;
use yorool_gui::message::{Reply, Request, Response};
use yorool_gui::registry::{Registry, SendError, ServiceId};

fn placed_button(
    registry: &mut Registry<Request>,
    mode: ButtonMode,
) -> Button<DefaultButtonSkin> {
    let mut button = Button::new(registry, DefaultButtonSkin::new());
    button.set_mode(mode);
    button.set_rect(Rect::new(0, 0, 100, 50));
    button.update(registry);
    button
}

#[test]
fn a_new_button_is_a_press_button_without_label() {
    let mut registry: Registry<Request> = Registry::new();
    let button = Button::new(&mut registry, DefaultButtonSkin::new());
    assert_eq!(button.get_mode(), ButtonMode::PressButton);
    assert_eq!(button.get_label(), "");
    assert_eq!(button.get_rect(), Rect::new(0, 0, 0, 0));
    assert!(!button.is_touched());
    assert!(button.click_tokens().is_empty());
    assert!(registry.resolves(button.srv_id()));
    assert_eq!(button.id().srv_id(), button.srv_id());
    assert_eq!(ButtonMode::default(), ButtonMode::PressButton);
}

#[test]
fn a_checkbox_click_checks_it_and_fires_once_with_the_new_state() {
    let mut registry: Registry<Request> = Registry::new();
    let mut button = placed_button(&mut registry, ButtonMode::Checkbox(false));
    assert_eq!(button.on_click(77), 0);
    button.mouse_button_down_event(MouseButton::Left, 50, 25);
    assert!(button.is_touched());
    assert_eq!(button.get_mode(), ButtonMode::Checkbox(false));
    let fired = button.mouse_button_up_event(MouseButton::Left, 50, 25);
    assert_eq!(button.get_mode(), ButtonMode::Checkbox(true));
    assert!(!button.is_touched());
    assert_eq!(
        fired,
        vec![Click { source: button.srv_id(), mode: ButtonMode::Checkbox(true), token: 77 }]
    );
}

#[test]
fn a_second_click_unchecks_the_checkbox() {
    let mut registry: Registry<Request> = Registry::new();
    let mut button = placed_button(&mut registry, ButtonMode::Checkbox(true));
    button.mouse_button_down_event(MouseButton::Left, 50, 25);
    button.mouse_button_up_event(MouseButton::Left, 50, 25);
    assert_eq!(button.get_mode(), ButtonMode::Checkbox(false));
}

#[test]
fn a_press_button_click_fires_and_keeps_the_mode() {
    let mut registry: Registry<Request> = Registry::new();
    let mut button = placed_button(&mut registry, ButtonMode::PressButton);
    button.on_click(5);
    button.mouse_button_down_event(MouseButton::Left, 50, 25);
    let fired = button.mouse_button_up_event(MouseButton::Left, 50, 25);
    assert_eq!(button.get_mode(), ButtonMode::PressButton);
    assert_eq!(
        fired,
        vec![Click { source: button.srv_id(), mode: ButtonMode::PressButton, token: 5 }]
    );
}

#[test]
fn a_radio_click_selects_it() {
    let mut registry: Registry<Request> = Registry::new();
    let mut button = placed_button(&mut registry, ButtonMode::Radio(false));
    button.mouse_button_down_event(MouseButton::Left, 50, 25);
    button.mouse_button_up_event(MouseButton::Left, 50, 25);
    assert_eq!(button.get_mode(), ButtonMode::Radio(true));
    assert_eq!(ButtonMode::Radio(true).toggle(), ButtonMode::Radio(false));
    assert_eq!(ButtonMode::PressButton.toggle(), ButtonMode::PressButton);
}

#[test]
fn release_outside_the_hot_area_is_no_click() {
    let mut registry: Registry<Request> = Registry::new();
    let mut button = placed_button(&mut registry, ButtonMode::Checkbox(false));
    button.on_click(1);
    button.mouse_button_down_event(MouseButton::Left, 50, 25);
    let fired = button.mouse_button_up_event(MouseButton::Left, 200, 25);
    assert!(fired.is_empty());
    assert!(!button.is_touched());
    assert_eq!(button.get_mode(), ButtonMode::Checkbox(false));
}

#[test]
fn press_outside_the_hot_area_does_not_touch() {
    let mut registry: Registry<Request> = Registry::new();
    let mut button = placed_button(&mut registry, ButtonMode::Checkbox(false));
    button.on_click(1);
    button.mouse_button_down_event(MouseButton::Left, 2, 2);
    assert!(!button.is_touched());
    let fired = button.mouse_button_up_event(MouseButton::Left, 50, 25);
    assert!(fired.is_empty());
    assert_eq!(button.get_mode(), ButtonMode::Checkbox(false));
}

#[test]
fn other_pointer_buttons_are_ignored() {
    let mut registry: Registry<Request> = Registry::new();
    let mut button = placed_button(&mut registry, ButtonMode::Checkbox(false));
    button.on_click(1);
    button.mouse_button_down_event(MouseButton::Right, 50, 25);
    assert!(!button.is_touched());
    button.mouse_button_down_event(MouseButton::Left, 50, 25);
    let fired = button.mouse_button_up_event(MouseButton::Middle, 50, 25);
    assert!(fired.is_empty());
    assert!(button.is_touched());
    let fired = button.mouse_button_up_event(MouseButton::Other(4), 50, 25);
    assert!(fired.is_empty());
    assert_eq!(button.get_mode(), ButtonMode::Checkbox(false));
}

#[test]
fn the_hot_area_is_the_plate_inside_the_margin() {
    let mut registry: Registry<Request> = Registry::new();
    let button = placed_button(&mut registry, ButtonMode::PressButton);
    let _ = button;
    let mut skin = DefaultButtonSkin::new();
    let mut state = ButtonState::default();
    state.rect = Rect::new(0, 0, 100, 50);
    skin.set_state(&state);
    assert!(skin.is_hot_area(5, 5));
    assert!(skin.is_hot_area(95, 45));
    assert!(!skin.is_hot_area(4, 25));
    assert!(!skin.is_hot_area(96, 25));
    assert!(!skin.is_hot_area(50, 4));
    assert!(!skin.is_hot_area(50, 46));
    assert_eq!(skin.state().rect, Rect::new(0, 0, 100, 50));
}

#[test]
fn a_rectangle_smaller_than_its_margins_has_no_hot_area() {
    let mut skin = DefaultButtonSkin::new();
    let mut state = ButtonState::default();
    state.rect = Rect::new(0, 0, 8, 8);
    skin.set_state(&state);
    assert!(!skin.is_hot_area(4, 4));
    assert!(!skin.is_hot_area(5, 5));
    assert_eq!(base_rect(Rect::new(0, 0, 8, 8)), None);
}

#[test]
fn the_plates_are_the_rectangle_without_margin_and_offset() {
    assert_eq!(base_rect(Rect::new(10, 20, 100, 50)), Some(Rect::new(15, 25, 90, 40)));
    assert_eq!(button_rect(Rect::new(10, 20, 100, 50), false), Some(Rect::new(15, 25, 80, 30)));
    assert_eq!(button_rect(Rect::new(10, 20, 100, 50), true), Some(Rect::new(25, 35, 80, 30)));
    assert_eq!(button_rect(Rect::new(0, 0, 19, 50), false), None);
}

#[test]
fn hit_tests_go_by_the_last_snapshot() {
    let mut registry: Registry<Request> = Registry::new();
    let mut button = placed_button(&mut registry, ButtonMode::Checkbox(false));
    button.set_rect(Rect::new(1000, 1000, 100, 50));
    button.mouse_button_down_event(MouseButton::Left, 1050, 1025);
    assert!(!button.is_touched());
    button.update(&mut registry);
    button.mouse_button_down_event(MouseButton::Left, 1050, 1025);
    assert!(button.is_touched());
}

#[test]
fn handler_keys_count_up_from_zero() {
    let mut registry: Registry<Request> = Registry::new();
    let mut button = Button::new(&mut registry, DefaultButtonSkin::new());
    assert_eq!(button.on_click(100), 0);
    assert_eq!(button.on_click(200), 1);
    assert_eq!(button.on_click_box(300), 2);
    assert_eq!(button.click_tokens(), vec![100, 200, 300]);
    assert!(button.has_handler_room());
    assert!(button.is_wf());
}

#[test]
fn removing_a_handler_keeps_the_others_and_their_order() {
    let mut registry: Registry<Request> = Registry::new();
    let mut button = Button::new(&mut registry, DefaultButtonSkin::new());
    button.on_click(100);
    button.on_click(200);
    button.on_click(300);
    button.remove_on_click(0);
    assert_eq!(button.click_tokens(), vec![200, 300]);
    assert_eq!(button.on_click(400), 3);
    assert_eq!(button.click_tokens(), vec![200, 300, 400]);
    button.remove_on_click(42);
    assert_eq!(button.click_tokens(), vec![200, 300, 400]);
    assert!(button.is_wf());
}

#[test]
fn a_key_is_used_again_only_after_its_handler_left() {
    let mut registry: Registry<Request> = Registry::new();
    let mut button = Button::new(&mut registry, DefaultButtonSkin::new());
    button.on_click(1);
    button.on_click(2);
    button.remove_on_click(1);
    assert_eq!(button.on_click(3), 1);
    assert_eq!(button.click_tokens(), vec![1, 3]);
    button.remove_on_click(0);
    button.remove_on_click(1);
    assert_eq!(button.on_click(4), 0);
}

#[test]
fn handlers_fire_in_the_order_in_which_they_were_added() {
    let mut registry: Registry<Request> = Registry::new();
    let mut button = placed_button(&mut registry, ButtonMode::PressButton);
    button.on_click(30);
    button.on_click(10);
    button.on_click(20);
    button.remove_on_click(1);
    button.mouse_button_down_event(MouseButton::Left, 50, 25);
    let fired: Vec<u64> = button
        .mouse_button_up_event(MouseButton::Left, 50, 25)
        .iter()
        .map(|c| c.token)
        .collect();
    assert_eq!(fired, vec![30, 20]);
}

#[test]
fn of_two_labels_sent_in_a_row_the_second_stays() {
    let mut registry: Registry<Request> = Registry::new();
    let mut button = Button::new(&mut registry, DefaultButtonSkin::new());
    let id = button.id();
    assert_eq!(id.set_label(&mut registry, 1, "a".to_string()), Ok(()));
    assert_eq!(id.set_label(&mut registry, 2, "b".to_string()), Ok(()));
    assert_eq!(button.get_label(), "");
    let replies = button.update(&mut registry);
    assert_eq!(button.get_label(), "b");
    assert_eq!(
        replies,
        vec![
            Response { reply_to: 1, reply: Reply::Done },
            Response { reply_to: 2, reply: Reply::Done },
        ]
    );
    assert!(button.update(&mut registry).is_empty());
}

#[test]
fn the_control_surface_answers_every_request_once() {
    let mut registry: Registry<Request> = Registry::new();
    let mut button = Button::new(&mut registry, DefaultButtonSkin::new());
    let id = button.id();
    id.set_mode(&mut registry, 1, ButtonMode::Radio(true)).unwrap();
    id.get_mode(&mut registry, 2).unwrap();
    id.set_label(&mut registry, 3, "go".to_string()).unwrap();
    id.get_label(&mut registry, 4).unwrap();
    id.on_click(&mut registry, 5, 900).unwrap();
    id.on_click(&mut registry, 6, 901).unwrap();
    id.remove_on_click(&mut registry, 7, 0).unwrap();
    let replies = button.update(&mut registry);
    assert_eq!(
        replies,
        vec![
            Response { reply_to: 1, reply: Reply::Done },
            Response { reply_to: 2, reply: Reply::Mode(ButtonMode::Radio(true)) },
            Response { reply_to: 3, reply: Reply::Done },
            Response { reply_to: 4, reply: Reply::Label("go".to_string()) },
            Response { reply_to: 5, reply: Reply::Handler(0) },
            Response { reply_to: 6, reply: Reply::Handler(1) },
            Response { reply_to: 7, reply: Reply::Done },
        ]
    );
    assert_eq!(button.get_mode(), ButtonMode::Radio(true));
    assert_eq!(button.click_tokens(), vec![901]);
}

#[test]
fn a_request_for_another_kind_of_widget_is_unsupported() {
    let mut registry: Registry<Request> = Registry::new();
    let mut button = Button::new(&mut registry, DefaultButtonSkin::new());
    registry
        .send(
            button.srv_id(),
            9,
            Request::Ribbon(yorool_gui::ribbon::RibbonOp::GetOrientation),
        )
        .unwrap();
    let replies = button.update(&mut registry);
    assert_eq!(replies, vec![Response { reply_to: 9, reply: Reply::Unsupported }]);
    assert_eq!(button.get_mode(), ButtonMode::PressButton);
}

#[test]
fn serve_applies_one_operation() {
    let mut registry: Registry<Request> = Registry::new();
    let mut button = Button::new(&mut registry, DefaultButtonSkin::new());
    assert_eq!(button.serve(ButtonOp::SetMode(ButtonMode::Checkbox(true))), Reply::Done);
    assert_eq!(button.serve(ButtonOp::GetMode), Reply::Mode(ButtonMode::Checkbox(true)));
    assert_eq!(button.serve(ButtonOp::OnClick(8)), Reply::Handler(0));
    assert_eq!(button.serve(ButtonOp::RemoveOnClick(0)), Reply::Done);
    assert!(button.click_tokens().is_empty());
}

#[test]
fn requests_to_a_button_that_is_gone_fail() {
    let mut registry: Registry<Request> = Registry::new();
    let button = Button::new(&mut registry, DefaultButtonSkin::new());
    let id = button.id();
    registry.unregister(button.srv_id());
    assert_eq!(id.get_mode(&mut registry, 1), Err(SendError::TargetGone));
    assert_eq!(id.set_mode(&mut registry, 1, ButtonMode::PressButton), Err(SendError::TargetGone));
    assert_eq!(id.get_label(&mut registry, 1), Err(SendError::TargetGone));
    assert_eq!(id.set_label(&mut registry, 1, "x".to_string()), Err(SendError::TargetGone));
    assert_eq!(id.on_click(&mut registry, 1, 1), Err(SendError::TargetGone));
    assert_eq!(id.remove_on_click(&mut registry, 1, 0), Err(SendError::TargetGone));
}

#[test]
fn the_builder_configures_a_button() {
    let mut registry: Registry<Request> = Registry::new();
    let button = ButtonBuilder::new(&mut registry, DefaultButtonSkin::new())
        .set_mode(ButtonMode::Checkbox(true))
        .set_label("Add checkbox".to_string())
        .on_click(11)
        .on_click(12)
        .build();
    assert_eq!(button.get_mode(), ButtonMode::Checkbox(true));
    assert_eq!(button.get_label(), "Add checkbox");
    assert_eq!(button.click_tokens(), vec![11, 12]);
    assert!(registry.resolves(button.srv_id()));
}

#[test]
fn a_snapshot_copies_the_state() {
    let mut state = ButtonState::default();
    state.label = "x".to_string();
    state.touched = true;
    let copy = state.clone();
    assert_eq!(copy.label, "x");
    assert!(copy.touched);
    assert_eq!(copy.mode, ButtonMode::PressButton);
}

#[test]
fn a_button_handle_turns_into_its_registry_handle() {
    let mut registry: Registry<Request> = Registry::new();
    let button = Button::new(&mut registry, DefaultButtonSkin::new());
    let id: ServiceId = button.id().into();
    assert_eq!(id, button.srv_id());
    assert_eq!(ServiceId::from(button.id()), button.srv_id());
    assert_eq!(button.get_skin().state().mode, ButtonMode::PressButton);
}
