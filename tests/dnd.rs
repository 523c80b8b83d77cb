use smithay::data_device::{
    create_data_source, default_action_chooser, source_offer, source_set_actions,
    DataDeviceEvent, DndAction, Effect, ProtocolError, SeatData, ServerDndEvent, SourceMetadata,
};
use smithay::dnd::{start_dnd, start_drag, DndState};
use smithay::registry::{Registry, UserData};

struct Setup {
    reg: Registry,
    seat: SeatData,
    dev_a: u32,
    dev_b: u32,
    origin: u32,
    target: u32,
    src: u32,
}

fn setup() -> Setup {
    let mut reg = Registry::new();
    let a = reg.add_client();
    let b = reg.add_client();
    let mut seat = SeatData::new();
    let dev_a = seat.get_data_device(&mut reg, a, 3);
    let dev_b = seat.get_data_device(&mut reg, b, 3);
    let origin = reg.create(a, 4, UserData::Plain);
    let target = reg.create(b, 4, UserData::Plain);
    let src = create_data_source(&mut reg, a, 3);
    source_offer(&mut reg, src, "text/uri-list".to_string());
    source_set_actions(&mut reg, src, 3);
    Setup { reg, seat, dev_a, dev_b, origin, target, src }
}

#[test]
fn drag_without_matching_grab_is_ignored() {
    let mut s = setup();
    let before = s.reg.len();
    let (out, grab) = start_drag(&mut s.reg, s.dev_a, Some(s.src), s.origin, None, 7, Some(6));
    assert!(out.is_empty());
    assert!(grab.is_none());
    let (out, grab) = start_drag(&mut s.reg, s.dev_a, Some(s.src), s.origin, None, 7, None);
    assert!(out.is_empty());
    assert!(grab.is_none());
    assert_eq!(s.reg.len(), before);
}

#[test]
fn icon_with_a_role_is_a_protocol_error() {
    let mut s = setup();
    let icon = s.reg.create(0, 4, UserData::Plain);
    assert!(s.reg.give_role(icon, "cursor").is_ok());
    let (out, grab) = start_drag(&mut s.reg, s.dev_a, Some(s.src), s.origin, Some(icon), 7, Some(7));
    assert_eq!(out, vec![Effect::Error { object: s.dev_a, error: ProtocolError::Role }]);
    assert!(grab.is_none());
}

#[test]
fn drag_and_drop_between_clients() {
    let mut s = setup();
    let icon = s.reg.create(0, 4, UserData::Plain);
    let (out, grab) = start_drag(&mut s.reg, s.dev_a, Some(s.src), s.origin, Some(icon), 7, Some(7));
    assert_eq!(
        out,
        vec![Effect::Notify(DataDeviceEvent::DnDStarted { source: Some(s.src), icon: Some(icon) })]
    );
    let mut grab = grab.unwrap();
    assert_eq!(grab.state(), DndState::Pointing);
    // over the target surface of client B
    let offer = s.reg.len();
    let out = grab.motion(&s.seat, &mut s.reg, Some(s.target), 256, 512, 10);
    assert_eq!(
        out,
        vec![
            Effect::DataOffer { device: s.dev_b, offer },
            Effect::Offer { offer, mime_type: "text/uri-list".to_string() },
            Effect::SourceActions { offer, actions: DndAction::from_bits(3) },
            Effect::Enter { device: s.dev_b, serial: 7, surface: s.target, x: 256, y: 512, with_offer: Some(offer) },
        ]
    );
    assert_eq!(grab.state(), DndState::OnTarget(s.target));
    // moving within the target
    let out = grab.motion(&s.seat, &mut s.reg, Some(s.target), 300, 512, 11);
    assert_eq!(out, vec![Effect::Motion { device: s.dev_b, time: 11, x: 300, y: 512 }]);
    // negotiation: source offers copy and move, target supports move and ask, prefers ask
    let supported = DndAction { copy: false, move_: true, ask: true };
    let out = grab.set_target_actions(&s.reg, offer, supported, DndAction::ask_action(), default_action_chooser);
    let expected = default_action_chooser(DndAction::from_bits(3).intersection(supported), DndAction::ask_action());
    assert_eq!(expected, DndAction::move_action());
    assert_eq!(
        out,
        vec![
            Effect::OfferAction { offer, action: expected },
            Effect::SourceAction { source: s.src, action: expected },
        ]
    );
    let out = grab.accept(Some("text/uri-list".to_string()));
    assert_eq!(out, vec![Effect::Target { source: s.src, accepted: Some("text/uri-list".to_string()) }]);
    let out = grab.button_release(&s.reg);
    assert_eq!(
        out,
        vec![
            Effect::Drop { device: s.dev_b },
            Effect::DropPerformed { source: s.src },
            Effect::Notify(DataDeviceEvent::DnDDropped),
        ]
    );
    assert_eq!(grab.state(), DndState::Dropped(Some(s.target)));
    // the source stays alive until the target finishes
    assert!(s.reg.is_alive(s.src));
    let out = grab.finish();
    assert_eq!(out, vec![Effect::DndFinished { source: s.src }]);
    assert_eq!(grab.state(), DndState::Finished);
    assert!(s.reg.is_alive(s.src));
}

#[test]
fn drop_without_action_cancels() {
    let mut s = setup();
    let (_, grab) = start_drag(&mut s.reg, s.dev_a, Some(s.src), s.origin, None, 7, Some(7));
    let mut grab = grab.unwrap();
    grab.motion(&s.seat, &mut s.reg, Some(s.target), 0, 0, 1);
    let out = grab.button_release(&s.reg);
    assert_eq!(
        out,
        vec![
            Effect::Cancelled { source: s.src },
            Effect::Leave { device: s.dev_b },
            Effect::Notify(DataDeviceEvent::DnDDropped),
        ]
    );
    assert_eq!(grab.state(), DndState::Finished);
}

#[test]
fn leaving_target_returns_to_pointing() {
    let mut s = setup();
    let (_, grab) = start_drag(&mut s.reg, s.dev_a, Some(s.src), s.origin, None, 7, Some(7));
    let mut grab = grab.unwrap();
    grab.motion(&s.seat, &mut s.reg, Some(s.target), 0, 0, 1);
    let out = grab.motion(&s.seat, &mut s.reg, None, 0, 0, 2);
    assert_eq!(out, vec![Effect::Leave { device: s.dev_b }]);
    assert_eq!(grab.state(), DndState::Pointing);
}

#[test]
fn sourceless_drag_stays_within_client() {
    let mut s = setup();
    let (_, grab) = start_drag(&mut s.reg, s.dev_a, None, s.origin, None, 7, Some(7));
    let mut grab = grab.unwrap();
    // a surface of another client is not a target
    let out = grab.motion(&s.seat, &mut s.reg, Some(s.target), 0, 0, 1);
    assert!(out.is_empty());
    assert_eq!(grab.state(), DndState::Pointing);
    // a surface of the same client is, without an offer
    let out = grab.motion(&s.seat, &mut s.reg, Some(s.origin), 8, 8, 2);
    assert_eq!(
        out,
        vec![Effect::Enter { device: s.dev_a, serial: 7, surface: s.origin, x: 8, y: 8, with_offer: None }]
    );
}

#[test]
fn source_death_ends_drag() {
    let mut s = setup();
    let (_, grab) = start_drag(&mut s.reg, s.dev_a, Some(s.src), s.origin, None, 7, Some(7));
    let mut grab = grab.unwrap();
    grab.motion(&s.seat, &mut s.reg, Some(s.target), 0, 0, 1);
    s.reg.destroy(s.src);
    let out = grab.source_destroyed();
    assert_eq!(out, vec![Effect::Leave { device: s.dev_b }]);
    assert_eq!(grab.state(), DndState::Finished);
}

#[test]
fn drag_freezes_source_actions() {
    let mut s = setup();
    start_drag(&mut s.reg, s.dev_a, Some(s.src), s.origin, None, 7, Some(7));
    assert_eq!(
        source_set_actions(&mut s.reg, s.src, 1),
        vec![Effect::Error { object: s.src, error: ProtocolError::InvalidSource }]
    );
}

#[test]
fn drag_offer_reads_from_source() {
    let mut s = setup();
    let (_, grab) = start_drag(&mut s.reg, s.dev_a, Some(s.src), s.origin, None, 7, Some(7));
    let mut grab = grab.unwrap();
    let offer = s.reg.len();
    grab.motion(&s.seat, &mut s.reg, Some(s.target), 0, 0, 1);
    let out = SeatData::offer_receive(&s.reg, offer, "text/uri-list".to_string(), 11);
    assert_eq!(
        out,
        vec![
            Effect::Send { source: s.src, mime_type: "text/uri-list".to_string(), fd: 11 },
            Effect::CloseFd { fd: 11 },
        ]
    );
}

#[test]
fn compositor_drag_needs_a_pointer() {
    let meta = SourceMetadata { mime_types: vec!["text/plain".to_string()], dnd_action: DndAction::copy_action() };
    assert!(start_dnd(3, meta, false).is_none());
}

#[test]
fn compositor_drag_round_trip() {
    let mut s = setup();
    let meta = SourceMetadata { mime_types: vec!["text/plain".to_string()], dnd_action: DndAction::copy_action() };
    let mut grab = start_dnd(3, meta, true).unwrap();
    assert_eq!(grab.state(), DndState::Pointing);
    let offer = s.reg.len();
    let out = grab.motion(&s.seat, &mut s.reg, Some(s.target), 16, 32, 1);
    assert_eq!(
        out,
        vec![
            Effect::DataOffer { device: s.dev_b, offer },
            Effect::Offer { offer, mime_type: "text/plain".to_string() },
            Effect::SourceActions { offer, actions: DndAction::copy_action() },
            Effect::Enter { device: s.dev_b, serial: 3, surface: s.target, x: 16, y: 32, with_offer: Some(offer) },
        ]
    );
    let supported = DndAction { copy: true, move_: true, ask: false };
    let out = grab.set_target_actions(&s.reg, offer, supported, DndAction::move_action(), default_action_chooser);
    assert_eq!(
        out,
        vec![
            Effect::OfferAction { offer, action: DndAction::copy_action() },
            Effect::ServerDnd(ServerDndEvent::Action(DndAction::copy_action())),
        ]
    );
    assert!(grab.accept(Some("text/plain".to_string())).is_empty());
    let out = SeatData::offer_receive(&s.reg, offer, "text/plain".to_string(), 4);
    assert_eq!(out, vec![Effect::ServerDnd(ServerDndEvent::Send { mime_type: "text/plain".to_string(), fd: 4 })]);
    let out = grab.button_release(&s.reg);
    assert_eq!(out, vec![Effect::Drop { device: s.dev_b }, Effect::ServerDnd(ServerDndEvent::Dropped)]);
    let out = grab.finish();
    assert_eq!(out, vec![Effect::ServerDnd(ServerDndEvent::Finished)]);
}

#[test]
fn compositor_drag_cancelled() {
    let mut s = setup();
    let meta = SourceMetadata { mime_types: vec!["text/plain".to_string()], dnd_action: DndAction::copy_action() };
    let mut grab = start_dnd(3, meta, true).unwrap();
    grab.motion(&s.seat, &mut s.reg, Some(s.target), 0, 0, 1);
    let out = grab.button_release(&s.reg);
    assert_eq!(out, vec![Effect::Leave { device: s.dev_b }, Effect::ServerDnd(ServerDndEvent::Cancelled)]);
    assert_eq!(grab.state(), DndState::Finished);
}

#[test]
fn target_death_returns_to_pointing() {
    let mut s = setup();
    let (_, grab) = start_drag(&mut s.reg, s.dev_a, Some(s.src), s.origin, None, 7, Some(7));
    let mut grab = grab.unwrap();
    assert!(grab.target_destroyed().is_empty());
    grab.motion(&s.seat, &mut s.reg, Some(s.target), 0, 0, 1);
    s.reg.destroy(s.target);
    let out = grab.target_destroyed();
    assert_eq!(out, vec![Effect::Leave { device: s.dev_b }]);
    assert_eq!(grab.state(), DndState::Pointing);
}

#[test]
fn ended_grab_finishes_silently() {
    let mut s = setup();
    let (_, grab) = start_drag(&mut s.reg, s.dev_a, Some(s.src), s.origin, None, 7, Some(7));
    let mut grab = grab.unwrap();
    grab.motion(&s.seat, &mut s.reg, Some(s.target), 0, 0, 1);
    grab.grab_ended();
    assert_eq!(grab.state(), DndState::Finished);
    assert!(grab.finish().is_empty());
}
