use smithay::data_device::{
    create_data_source, default_action_chooser, set_data_device_focus, set_data_device_selection,
    source_offer, source_set_actions, with_source_metadata, DataDeviceEvent, DndAction, Effect,
    ProtocolError, SeatData, Selection,
};
use smithay::registry::{Registry, UserData};

fn copy() -> DndAction {
    DndAction::copy_action()
}

fn mv() -> DndAction {
    DndAction::move_action()
}

fn ask() -> DndAction {
    DndAction::ask_action()
}

fn union(a: DndAction, b: DndAction) -> DndAction {
    DndAction { copy: a.copy || b.copy, move_: a.move_ || b.move_, ask: a.ask || b.ask }
}

#[test]
fn chooser_takes_available_preferred() {
    let all = union(union(copy(), mv()), ask());
    assert_eq!(default_action_chooser(all, mv()), mv());
    assert_eq!(default_action_chooser(all, copy()), copy());
}

#[test]
fn chooser_falls_back_ask_copy_move() {
    let all = union(union(copy(), mv()), ask());
    assert_eq!(default_action_chooser(all, DndAction::empty()), ask());
    assert_eq!(default_action_chooser(union(copy(), mv()), ask()), copy());
    assert_eq!(default_action_chooser(mv(), copy()), mv());
    assert_eq!(default_action_chooser(DndAction::empty(), copy()), DndAction::empty());
    // a preferred set of two actions is not a single action
    assert_eq!(default_action_chooser(union(copy(), mv()), union(copy(), mv())), copy());
}

#[test]
fn action_bits_round_trip() {
    assert_eq!(DndAction::from_bits(0), DndAction::empty());
    assert_eq!(DndAction::from_bits(1), copy());
    assert_eq!(DndAction::from_bits(2), mv());
    assert_eq!(DndAction::from_bits(4), ask());
    for b in 0u32..8 {
        assert_eq!(DndAction::from_bits(b).bits(), b);
    }
    assert_eq!(copy().intersection(union(copy(), ask())), copy());
    assert!(union(copy(), ask()).contains(ask()));
    assert!(!copy().contains(mv()));
}

struct World {
    reg: Registry,
    seat: SeatData,
    a: u32,
    b: u32,
    dev_a: u32,
    dev_b: u32,
}

fn world() -> World {
    let mut reg = Registry::new();
    let a = reg.add_client();
    let b = reg.add_client();
    let mut seat = SeatData::new();
    let dev_a = seat.get_data_device(&mut reg, a, 3);
    let dev_b = seat.get_data_device(&mut reg, b, 3);
    World { reg, seat, a, b, dev_a, dev_b }
}

fn text_source(w: &mut World) -> u32 {
    let src = create_data_source(&mut w.reg, w.a, 3);
    source_offer(&mut w.reg, src, "text/plain".to_string());
    src
}

#[test]
fn selection_round_trip() {
    let mut w = world();
    let src = text_source(&mut w);
    // client A has the keyboard focus and sets the selection
    let out = w.seat.request_set_selection(&mut w.reg, w.dev_a, Some(src), Some(w.a));
    assert_eq!(out, vec![Effect::Notify(DataDeviceEvent::NewSelection(Some(src)))]);
    assert_eq!(*w.seat.selection(), Selection::Client(src));
    // client B gains the focus: a new offer, its type, then the selection
    let offer = w.reg.len();
    let out = set_data_device_focus(&mut w.seat, &mut w.reg, Some(w.b));
    assert_eq!(
        out,
        vec![
            Effect::DataOffer { device: w.dev_b, offer },
            Effect::Offer { offer, mime_type: "text/plain".to_string() },
            Effect::Selection { device: w.dev_b, selected: Some(offer) },
        ]
    );
    assert!(w.reg.is_alive(offer));
    assert_eq!(w.reg.client_of(offer), Some(w.b));
    // B reads it: the source is asked to send to the same fd, which the server closes
    let out = SeatData::offer_receive(&w.reg, offer, "text/plain".to_string(), 42);
    assert_eq!(
        out,
        vec![
            Effect::Send { source: src, mime_type: "text/plain".to_string(), fd: 42 },
            Effect::CloseFd { fd: 42 },
        ]
    );
}

#[test]
fn receive_of_unoffered_type_only_closes() {
    let mut w = world();
    let src = text_source(&mut w);
    w.seat.request_set_selection(&mut w.reg, w.dev_a, Some(src), Some(w.a));
    let offer = w.reg.len();
    set_data_device_focus(&mut w.seat, &mut w.reg, Some(w.b));
    let out = SeatData::offer_receive(&w.reg, offer, "image/png".to_string(), 9);
    assert_eq!(out, vec![Effect::CloseFd { fd: 9 }]);
    // the source died in the meantime
    w.reg.destroy(src);
    let out = SeatData::offer_receive(&w.reg, offer, "text/plain".to_string(), 9);
    assert_eq!(out, vec![Effect::CloseFd { fd: 9 }]);
}

#[test]
fn stale_client_selection_is_null() {
    let mut w = world();
    let src = text_source(&mut w);
    w.seat.request_set_selection(&mut w.reg, w.dev_a, Some(src), Some(w.a));
    // client A disconnects before B gets the focus
    w.reg.disconnect(w.a);
    let before = w.reg.len();
    let out = set_data_device_focus(&mut w.seat, &mut w.reg, Some(w.b));
    assert_eq!(out, vec![Effect::Selection { device: w.dev_b, selected: None }]);
    assert_eq!(w.reg.len(), before);
    assert_eq!(*w.seat.selection(), Selection::Empty);
}

#[test]
fn unfocused_set_selection_is_ignored() {
    let mut w = world();
    let src = text_source(&mut w);
    // client B holds the keyboard focus, client A asks
    let out = w.seat.request_set_selection(&mut w.reg, w.dev_a, Some(src), Some(w.b));
    assert!(out.is_empty());
    assert_eq!(*w.seat.selection(), Selection::Empty);
    // nobody has the keyboard focus
    let out = w.seat.request_set_selection(&mut w.reg, w.dev_a, Some(src), None);
    assert!(out.is_empty());
    assert_eq!(*w.seat.selection(), Selection::Empty);
}

#[test]
fn selection_sent_to_focused_client_at_once() {
    let mut w = world();
    set_data_device_focus(&mut w.seat, &mut w.reg, Some(w.a));
    let src = text_source(&mut w);
    let offer = w.reg.len();
    let out = w.seat.request_set_selection(&mut w.reg, w.dev_a, Some(src), Some(w.a));
    assert_eq!(
        out,
        vec![
            Effect::Notify(DataDeviceEvent::NewSelection(Some(src))),
            Effect::DataOffer { device: w.dev_a, offer },
            Effect::Offer { offer, mime_type: "text/plain".to_string() },
            Effect::Selection { device: w.dev_a, selected: Some(offer) },
        ]
    );
    // clearing it
    let out = w.seat.request_set_selection(&mut w.reg, w.dev_a, None, Some(w.a));
    assert_eq!(
        out,
        vec![
            Effect::Notify(DataDeviceEvent::NewSelection(None)),
            Effect::Selection { device: w.dev_a, selected: None },
        ]
    );
}

#[test]
fn dead_source_collapses_on_next_advertisement() {
    let mut w = world();
    let src = text_source(&mut w);
    w.seat.request_set_selection(&mut w.reg, w.dev_a, Some(src), Some(w.a));
    w.reg.destroy(src);
    assert_eq!(*w.seat.selection(), Selection::Client(src));
    let out = set_data_device_focus(&mut w.seat, &mut w.reg, Some(w.a));
    assert_eq!(out, vec![Effect::Selection { device: w.dev_a, selected: None }]);
    assert_eq!(*w.seat.selection(), Selection::Empty);
}

#[test]
fn no_focus_no_advertisement() {
    let mut w = world();
    let out = set_data_device_focus(&mut w.seat, &mut w.reg, None);
    assert!(out.is_empty());
    assert_eq!(w.seat.current_focus(), None);
}

#[test]
fn compositor_selection() {
    let mut w = world();
    set_data_device_focus(&mut w.seat, &mut w.reg, Some(w.b));
    let offer = w.reg.len();
    let out = set_data_device_selection(
        &mut w.seat,
        &mut w.reg,
        vec!["text/plain".to_string(), "text/html".to_string()],
    );
    assert_eq!(
        out,
        vec![
            Effect::DataOffer { device: w.dev_b, offer },
            Effect::Offer { offer, mime_type: "text/plain".to_string() },
            Effect::Offer { offer, mime_type: "text/html".to_string() },
            Effect::Selection { device: w.dev_b, selected: Some(offer) },
        ]
    );
    // the compositor is asked to send, and closes the fd itself
    let out = SeatData::offer_receive(&w.reg, offer, "text/html".to_string(), 5);
    assert_eq!(
        out,
        vec![Effect::Notify(DataDeviceEvent::SendSelection { mime_type: "text/html".to_string(), fd: 5 })]
    );
    let out = SeatData::offer_receive(&w.reg, offer, "image/png".to_string(), 5);
    assert_eq!(out, vec![Effect::CloseFd { fd: 5 }]);
}

#[test]
fn offers_only_to_devices_of_focused_client() {
    let mut w = world();
    let second_b = w.seat.get_data_device(&mut w.reg, w.b, 3);
    let out = set_data_device_focus(&mut w.seat, &mut w.reg, Some(w.b));
    assert_eq!(
        out,
        vec![
            Effect::Selection { device: w.dev_b, selected: None },
            Effect::Selection { device: second_b, selected: None },
        ]
    );
}

#[test]
fn release_prunes_devices() {
    let mut w = world();
    let extra = w.seat.get_data_device(&mut w.reg, w.b, 3);
    w.reg.destroy(w.dev_b);
    let reg = &w.reg;
    w.seat.release(reg, w.dev_a);
    assert_eq!(*w.seat.known_devices(), vec![extra]);
}

#[test]
fn mime_types_are_unique_and_frozen_after_use() {
    let mut w = world();
    let src = text_source(&mut w);
    source_offer(&mut w.reg, src, "text/plain".to_string());
    source_offer(&mut w.reg, src, "text/html".to_string());
    let meta = with_source_metadata(&w.reg, src).unwrap();
    assert_eq!(meta.mime_types, vec!["text/plain".to_string(), "text/html".to_string()]);
    w.seat.request_set_selection(&mut w.reg, w.dev_a, Some(src), Some(w.a));
    source_offer(&mut w.reg, src, "image/png".to_string());
    let meta = with_source_metadata(&w.reg, src).unwrap();
    assert_eq!(meta.mime_types.len(), 2);
    match w.reg.data_of(src) {
        UserData::Source(s) => assert!(s.frozen),
        _ => panic!("not a source"),
    }
}

#[test]
fn set_actions_rules() {
    let mut w = world();
    let src = text_source(&mut w);
    assert!(source_set_actions(&mut w.reg, src, 0).is_empty());
    assert_eq!(with_source_metadata(&w.reg, src).unwrap().dnd_action, DndAction::empty());
    assert!(source_set_actions(&mut w.reg, src, 5).is_empty());
    assert_eq!(with_source_metadata(&w.reg, src).unwrap().dnd_action, union(copy(), ask()));
    assert_eq!(
        source_set_actions(&mut w.reg, src, 8),
        vec![Effect::Error { object: src, error: ProtocolError::InvalidActionMask }]
    );
    let old = create_data_source(&mut w.reg, w.a, 2);
    assert_eq!(
        source_set_actions(&mut w.reg, old, 1),
        vec![Effect::Error { object: old, error: ProtocolError::InvalidActionMask }]
    );
    w.seat.request_set_selection(&mut w.reg, w.dev_a, Some(src), Some(w.a));
    assert_eq!(
        source_set_actions(&mut w.reg, src, 2),
        vec![Effect::Error { object: src, error: ProtocolError::InvalidSource }]
    );
    assert_eq!(with_source_metadata(&w.reg, src).unwrap().dnd_action, union(copy(), ask()));
}

#[test]
fn metadata_of_dead_source_is_none() {
    let mut w = world();
    let src = text_source(&mut w);
    w.reg.destroy(src);
    assert!(with_source_metadata(&w.reg, src).is_none());
}
