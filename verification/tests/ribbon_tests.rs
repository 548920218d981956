use yorool_gui::button::{Button, ButtonMode, Click, MouseButton};
use yorool_gui::default_skin::DefaultButtonSkin;
use yorool_gui::geometry::Rect;
use yorool_gui::message::{Reply, Request, Response};
use yorool_gui::radiogroup::RadioGroup;
use yorool_gui::registry::{Registry, SendError, ServiceId};
use yorool_gui::ribbon::{Ribbon, RibbonBuilder, RibbonOp, RibbonOrientation, WidgetNode};

fn checkbox(registry: &mut Registry<Request>) -> (WidgetNode, ServiceId) {
    let mut button = Button::new(registry, DefaultButtonSkin::new());
    button.set_mode(ButtonMode::Checkbox(false));
    let id = button.srv_id();
    (WidgetNode::Button(button), id)
}

fn rects(ribbon: &Ribbon) -> Vec<Rect> {
    (0..ribbon.len()).map(|i| ribbon.child(i).get_rect()).collect()
}

fn assert_tiles(ribbon: &Ribbon) {
    let rect = ribbon.get_rect();
    let cells = rects(ribbon);
    let mut edge = match ribbon.get_orientation() {
        RibbonOrientation::Horizontal => rect.x as i64,
        RibbonOrientation::Vertical => rect.y as i64,
    };
    for c in &cells {
        match ribbon.get_orientation() {
            RibbonOrientation::Horizontal => {
                assert_eq!(c.x as i64, edge);
                assert_eq!((c.y, c.h), (rect.y, rect.h));
                edge += c.w as i64;
            }
            RibbonOrientation::Vertical => {
                assert_eq!(c.y as i64, edge);
                assert_eq!((c.x, c.w), (rect.x, rect.w));
                edge += c.h as i64;
            }
        }
    }
    if !cells.is_empty() {
        let far = match ribbon.get_orientation() {
            RibbonOrientation::Horizontal => rect.x as i64 + rect.w as i64,
            RibbonOrientation::Vertical => rect.y as i64 + rect.h as i64,
        };
        assert_eq!(edge, far);
    }
}

#[test]
fn a_new_ribbon_is_an_empty_row() {
    let mut registry: Registry<Request> = Registry::new();
    let ribbon = Ribbon::new(&mut registry);
    assert_eq!(ribbon.len(), 0);
    assert_eq!(ribbon.get_orientation(), RibbonOrientation::Horizontal);
    assert_eq!(ribbon.get_rect(), Rect::new(0, 0, 0, 0));
    assert!(registry.resolves(ribbon.srv_id()));
    assert_eq!(ribbon.id().srv_id(), ribbon.srv_id());
    assert!(ribbon.is_wf());
}

#[test]
fn a_ribbon_without_children_can_be_laid_out() {
    let mut registry: Registry<Request> = Registry::new();
    let mut ribbon = Ribbon::new(&mut registry);
    ribbon.set_rect(Rect::new(0, 0, 640, 480));
    ribbon.set_orientation(RibbonOrientation::Vertical);
    assert_eq!(ribbon.get_rect(), Rect::new(0, 0, 640, 480));
    assert_eq!(ribbon.len(), 0);
    assert!(ribbon.update(&mut registry).is_empty());
}

#[test]
fn doubling_the_width_doubles_each_cell() {
    let mut registry: Registry<Request> = Registry::new();
    let mut ribbon = Ribbon::new(&mut registry);
    let (a, _) = checkbox(&mut registry);
    let (b, _) = checkbox(&mut registry);
    ribbon.add_widget(a);
    ribbon.add_widget(b);
    ribbon.set_rect(Rect::new(0, 0, 100, 30));
    assert_eq!(rects(&ribbon), vec![Rect::new(0, 0, 50, 30), Rect::new(50, 0, 50, 30)]);
    ribbon.set_rect(Rect::new(0, 0, 200, 30));
    assert_eq!(rects(&ribbon), vec![Rect::new(0, 0, 100, 30), Rect::new(100, 0, 100, 30)]);
}

#[test]
fn cells_follow_every_add_and_remove() {
    let mut registry: Registry<Request> = Registry::new();
    let mut ribbon = Ribbon::new(&mut registry);
    ribbon.set_rect(Rect::new(3, 4, 101, 37));
    let mut ids = Vec::new();
    for n in 1..=7usize {
        let (w, id) = checkbox(&mut registry);
        ids.push(id);
        ribbon.add_widget_box(w);
        assert_eq!(ribbon.len(), n);
        assert_tiles(&ribbon);
        assert!(ribbon.is_wf());
    }
    for (k, id) in ids.iter().enumerate() {
        ribbon.remove_widget(*id, &mut registry);
        assert_eq!(ribbon.len(), 6 - k);
        assert_tiles(&ribbon);
        assert!(ribbon.is_wf());
    }
}

#[test]
fn a_column_shares_the_height() {
    let mut registry: Registry<Request> = Registry::new();
    let mut ribbon = Ribbon::new(&mut registry);
    for _ in 0..3 {
        let (w, _) = checkbox(&mut registry);
        ribbon.add_widget(w);
    }
    ribbon.set_rect(Rect::new(0, 0, 60, 90));
    ribbon.set_orientation(RibbonOrientation::Vertical);
    assert_eq!(
        rects(&ribbon),
        vec![Rect::new(0, 0, 60, 30), Rect::new(0, 30, 60, 30), Rect::new(0, 60, 60, 30)]
    );
    assert_tiles(&ribbon);
}

#[test]
fn children_keep_the_order_in_which_they_were_added() {
    let mut registry: Registry<Request> = Registry::new();
    let mut ribbon = Ribbon::new(&mut registry);
    let (a, ida) = checkbox(&mut registry);
    let (b, idb) = checkbox(&mut registry);
    let (c, idc) = checkbox(&mut registry);
    ribbon.add_widget(a);
    ribbon.add_widget(b);
    ribbon.add_widget(c);
    let order: Vec<ServiceId> = (0..3).map(|i| ribbon.child(i).srv_id()).collect();
    assert_eq!(order, vec![ida, idb, idc]);
    ribbon.remove_widget(idb, &mut registry);
    let order: Vec<ServiceId> = (0..2).map(|i| ribbon.child(i).srv_id()).collect();
    assert_eq!(order, vec![ida, idc]);
}

#[test]
fn a_removed_widget_is_gone_for_senders() {
    let mut registry: Registry<Request> = Registry::new();
    let mut ribbon = Ribbon::new(&mut registry);
    let mut button = Button::new(&mut registry, DefaultButtonSkin::new());
    button.set_mode(ButtonMode::Checkbox(true));
    let id = button.id();
    ribbon.add_widget(WidgetNode::Button(button));
    assert_eq!(id.get_mode(&mut registry, 1), Ok(()));
    ribbon.remove_widget(id.srv_id(), &mut registry);
    assert_eq!(ribbon.len(), 0);
    assert!(!registry.resolves(id.srv_id()));
    assert_eq!(id.get_mode(&mut registry, 2), Err(SendError::TargetGone));
    assert_eq!(id.set_label(&mut registry, 3, "x".to_string()), Err(SendError::TargetGone));
    let (fresh, fresh_id) = checkbox(&mut registry);
    ribbon.add_widget(fresh);
    assert_ne!(fresh_id, id.srv_id());
    assert_eq!(id.get_mode(&mut registry, 4), Err(SendError::TargetGone));
}

#[test]
fn removing_an_unknown_handle_changes_nothing() {
    let mut registry: Registry<Request> = Registry::new();
    let mut ribbon = Ribbon::new(&mut registry);
    let (a, ida) = checkbox(&mut registry);
    let (_outsider, outside_id) = checkbox(&mut registry);
    ribbon.add_widget(a);
    ribbon.set_rect(Rect::new(0, 0, 10, 10));
    ribbon.remove_widget(outside_id, &mut registry);
    assert_eq!(ribbon.len(), 1);
    assert_eq!(ribbon.child(0).srv_id(), ida);
    assert!(registry.resolves(outside_id));
    assert!(registry.resolves(ida));
    assert_eq!(rects(&ribbon), vec![Rect::new(0, 0, 10, 10)]);
}

#[test]
fn removing_a_ribbon_destroys_what_is_below_it() {
    let mut registry: Registry<Request> = Registry::new();
    let mut root = Ribbon::new(&mut registry);
    let mut inner = Ribbon::new(&mut registry);
    let inner_id = inner.srv_id();
    let (a, ida) = checkbox(&mut registry);
    let group = RadioGroup::new(&mut registry, 1, 2);
    let group_id = group.srv_id();
    inner.add_widget(a);
    inner.add_widget(WidgetNode::RadioGroup(group));
    let (b, idb) = checkbox(&mut registry);
    root.add_widget(WidgetNode::Ribbon(inner));
    root.add_widget(b);
    root.remove_widget(inner_id, &mut registry);
    assert!(!registry.resolves(inner_id));
    assert!(!registry.resolves(ida));
    assert!(!registry.resolves(group_id));
    assert!(registry.resolves(idb));
    assert!(registry.resolves(root.srv_id()));
    assert_eq!(root.len(), 1);
}

#[test]
fn nested_ribbons_are_laid_out_all_the_way_down() {
    let mut registry: Registry<Request> = Registry::new();
    let mut inner = Ribbon::new(&mut registry);
    let (a, _) = checkbox(&mut registry);
    let (b, _) = checkbox(&mut registry);
    inner.add_widget(a);
    inner.add_widget(b);
    let (c, _) = checkbox(&mut registry);
    let mut root = RibbonBuilder::new(&mut registry)
        .set_orientation(RibbonOrientation::Vertical)
        .add_widget(WidgetNode::Ribbon(inner))
        .add_widget(c)
        .build();
    root.set_rect(Rect::new(0, 0, 80, 40));
    assert_eq!(rects(&root), vec![Rect::new(0, 0, 80, 20), Rect::new(0, 20, 80, 20)]);
    match root.child(0) {
        WidgetNode::Ribbon(inner) => {
            assert_eq!(rects(inner), vec![Rect::new(0, 0, 40, 20), Rect::new(40, 0, 40, 20)]);
        }
        _ => panic!("the first child is the inner ribbon"),
    }
    assert!(root.is_wf());
}

#[test]
fn pointer_events_reach_the_buttons_below() {
    let mut registry: Registry<Request> = Registry::new();
    let mut a = Button::new(&mut registry, DefaultButtonSkin::new());
    a.set_mode(ButtonMode::Checkbox(false));
    a.on_click(7);
    a.on_click(8);
    let ida = a.srv_id();
    let mut b = Button::new(&mut registry, DefaultButtonSkin::new());
    b.set_mode(ButtonMode::Checkbox(false));
    b.on_click(9);
    let mut root = WidgetNode::Ribbon(
        RibbonBuilder::new(&mut registry)
            .add_widget(WidgetNode::Button(a))
            .add_widget(WidgetNode::Button(b))
            .build(),
    );
    root.set_rect(Rect::new(0, 0, 200, 50));
    root.update(&mut registry);
    root.mouse_button_down_event(MouseButton::Left, 50, 25);
    let fired = root.mouse_button_up_event(MouseButton::Left, 50, 25);
    assert_eq!(
        fired,
        vec![
            Click { source: ida, mode: ButtonMode::Checkbox(true), token: 7 },
            Click { source: ida, mode: ButtonMode::Checkbox(true), token: 8 },
        ]
    );
    match &root {
        WidgetNode::Ribbon(ribbon) => {
            match ribbon.child(0) {
                WidgetNode::Button(a) => assert_eq!(a.get_mode(), ButtonMode::Checkbox(true)),
                _ => panic!("the first child is a button"),
            }
            match ribbon.child(1) {
                WidgetNode::Button(b) => assert_eq!(b.get_mode(), ButtonMode::Checkbox(false)),
                _ => panic!("the second child is a button"),
            }
        }
        _ => panic!("the root is a ribbon"),
    }
    assert_eq!(root.get_rect(), Rect::new(0, 0, 200, 50));
}

#[test]
fn the_control_surface_changes_the_ribbon_on_its_next_update() {
    let mut registry: Registry<Request> = Registry::new();
    let mut ribbon = Ribbon::new(&mut registry);
    ribbon.set_rect(Rect::new(0, 0, 90, 90));
    let id = ribbon.id();
    let (a, ida) = checkbox(&mut registry);
    let (b, idb) = checkbox(&mut registry);
    id.add_widget(&mut registry, 1, a).unwrap();
    id.add_widget(&mut registry, 2, b).unwrap();
    id.get_orientation(&mut registry, 3).unwrap();
    id.set_orientation(&mut registry, 4, RibbonOrientation::Vertical).unwrap();
    id.get_orientation(&mut registry, 5).unwrap();
    id.remove_widget(&mut registry, 6, ida).unwrap();
    assert_eq!(ribbon.len(), 0);
    let replies = ribbon.update(&mut registry);
    assert_eq!(
        replies,
        vec![
            Response { reply_to: 1, reply: Reply::Done },
            Response { reply_to: 2, reply: Reply::Done },
            Response { reply_to: 3, reply: Reply::Orientation(RibbonOrientation::Horizontal) },
            Response { reply_to: 4, reply: Reply::Done },
            Response { reply_to: 5, reply: Reply::Orientation(RibbonOrientation::Vertical) },
            Response { reply_to: 6, reply: Reply::Done },
        ]
    );
    assert_eq!(ribbon.len(), 1);
    assert_eq!(ribbon.child(0).srv_id(), idb);
    assert_eq!(rects(&ribbon), vec![Rect::new(0, 0, 90, 90)]);
    assert!(!registry.resolves(ida));
}

#[test]
fn update_reaches_the_children_in_order() {
    let mut registry: Registry<Request> = Registry::new();
    let a = Button::new(&mut registry, DefaultButtonSkin::new());
    let b = Button::new(&mut registry, DefaultButtonSkin::new());
    let (ida, idb) = (a.id(), b.id());
    let mut inner = Ribbon::new(&mut registry);
    inner.add_widget(WidgetNode::Button(b));
    let mut root = Ribbon::new(&mut registry);
    root.add_widget(WidgetNode::Button(a));
    root.add_widget(WidgetNode::Ribbon(inner));
    idb.set_label(&mut registry, 20, "b".to_string()).unwrap();
    ida.set_label(&mut registry, 10, "a".to_string()).unwrap();
    root.id().get_orientation(&mut registry, 1).unwrap();
    let replies = root.update(&mut registry);
    assert_eq!(
        replies,
        vec![
            Response { reply_to: 1, reply: Reply::Orientation(RibbonOrientation::Horizontal) },
            Response { reply_to: 10, reply: Reply::Done },
            Response { reply_to: 20, reply: Reply::Done },
        ]
    );
    match root.child(0) {
        WidgetNode::Button(a) => assert_eq!(a.get_label(), "a"),
        _ => panic!("the first child is a button"),
    }
}

#[test]
fn update_levels_stops_where_no_level_is_left() {
    let mut registry: Registry<Request> = Registry::new();
    let a = Button::new(&mut registry, DefaultButtonSkin::new());
    let ida = a.id();
    let mut root = Ribbon::new(&mut registry);
    root.add_widget(WidgetNode::Button(a));
    ida.set_label(&mut registry, 10, "a".to_string()).unwrap();
    assert!(root.update_levels(&mut registry, 0).is_empty());
    assert_eq!(root.update_levels(&mut registry, 1).len(), 1);
}

#[test]
fn a_request_for_another_kind_of_widget_is_unsupported_by_a_ribbon() {
    let mut registry: Registry<Request> = Registry::new();
    let mut ribbon = Ribbon::new(&mut registry);
    registry
        .send(ribbon.srv_id(), 1, Request::Button(yorool_gui::button::ButtonOp::GetMode))
        .unwrap();
    assert_eq!(
        ribbon.serve_requests(&mut registry),
        vec![Response { reply_to: 1, reply: Reply::Unsupported }]
    );
}

#[test]
fn serve_applies_one_ribbon_operation() {
    let mut registry: Registry<Request> = Registry::new();
    let mut ribbon = Ribbon::new(&mut registry);
    let (a, ida) = checkbox(&mut registry);
    assert_eq!(ribbon.serve(RibbonOp::AddWidget(a), &mut registry), Reply::Done);
    assert_eq!(
        ribbon.serve(RibbonOp::SetOrientation(RibbonOrientation::Vertical), &mut registry),
        Reply::Done
    );
    assert_eq!(
        ribbon.serve(RibbonOp::GetOrientation, &mut registry),
        Reply::Orientation(RibbonOrientation::Vertical)
    );
    assert_eq!(ribbon.serve(RibbonOp::RemoveWidget(ida), &mut registry), Reply::Done);
    assert_eq!(ribbon.len(), 0);
}

#[test]
fn requests_to_a_ribbon_that_is_gone_fail() {
    let mut registry: Registry<Request> = Registry::new();
    let ribbon = Ribbon::new(&mut registry);
    let id = ribbon.id();
    WidgetNode::Ribbon(ribbon).release(&mut registry);
    let (a, ida) = checkbox(&mut registry);
    assert_eq!(id.add_widget(&mut registry, 1, a), Err(SendError::TargetGone));
    assert_eq!(id.remove_widget(&mut registry, 1, ida), Err(SendError::TargetGone));
    assert_eq!(
        id.set_orientation(&mut registry, 1, RibbonOrientation::Vertical),
        Err(SendError::TargetGone)
    );
    assert_eq!(id.get_orientation(&mut registry, 1), Err(SendError::TargetGone));
}

#[test]
fn a_radio_group_takes_a_cell() {
    let mut registry: Registry<Request> = Registry::new();
    let group = RadioGroup::new(&mut registry, 1, 2);
    let (a, _) = checkbox(&mut registry);
    let mut ribbon = Ribbon::new(&mut registry);
    ribbon.add_widget(WidgetNode::RadioGroup(group));
    ribbon.add_widget(a);
    ribbon.set_rect(Rect::new(0, 0, 100, 10));
    assert_eq!(rects(&ribbon), vec![Rect::new(0, 0, 50, 10), Rect::new(50, 0, 50, 10)]);
}

#[test]
fn a_widget_that_is_not_well_formed_is_turned_away() {
    let mut registry: Registry<Request> = Registry::new();
    let mut ribbon = Ribbon::new(&mut registry);
    let mut off_grid = Ribbon::new(&mut registry);
    off_grid.set_rect(Rect::new(i32::MAX, 0, 10, 10));
    assert!(!off_grid.is_wf());
    let off_grid_id = off_grid.srv_id();
    assert_eq!(
        ribbon.serve(RibbonOp::AddWidget(WidgetNode::Ribbon(off_grid)), &mut registry),
        Reply::Unsupported
    );
    assert_eq!(ribbon.len(), 0);
    assert!(!registry.resolves(off_grid_id));
    assert!(registry.resolves(ribbon.srv_id()));
}
