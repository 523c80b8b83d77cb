//! Drag-and-drop started by a client: while the pointer is grabbed, the
//! drag follows the pointer from surface to surface, negotiates an action
//! with the target, and ends with a drop or a cancellation.

use crate::data_device::{
    choose_action, count_owned, default_action_chooser, device_of, freeze_source, froze,
    DataDeviceEvent, DndAction, Effect, OfferKind, ProtocolError, SeatData, ServerDndEvent,
    SourceMetadata, ACTIONS_SINCE_VERSION, DND_ICON_ROLE,
};
use crate::registry::{ClientId, ObjectId, Registry, UserData};
use vstd::prelude::*;

verus! {

/// Where a drag is.
#[derive(Clone, Copy, Debug, PartialEq, Eq, Structural)]
pub enum DndState {
    /// In flight over no target.
    Pointing,
    /// Over this surface.
    OnTarget(ObjectId),
    /// Dropped, on this surface when the drop was accepted.
    Dropped(Option<ObjectId>),
    /// Over: finished or cancelled.
    Finished,
}

/// Events of entering a surface: for each data device of its client, a new
/// offer (when the drag has a source, `offered`) with the source's MIME
/// types and actions, then `enter`. Offers are numbered from `first`.
pub open spec fn enter_effects(
    reg: Registry,
    c: ClientId,
    ds: Seq<ObjectId>,
    first: nat,
    surface: ObjectId,
    serial: u32,
    x: i32,
    y: i32,
    offered: bool,
    ms: Seq<String>,
    actions: DndAction,
) -> Seq<Effect>
    decreases ds.len(),
{
    if ds.len() == 0 {
        seq![]
    } else {
        let prev = enter_effects(reg, c, ds.drop_last(), first, surface, serial, x, y, offered, ms, actions);
        let d = ds.last();
        if device_of(reg, c, d) {
            match offered {
                true => {
                    let o = (first + count_owned(reg, c, ds.drop_last())) as ObjectId;
                    prev + (seq![Effect::DataOffer { device: d, offer: o }] + ms.map_values(
                        |m: String| Effect::Offer { offer: o, mime_type: m },
                    ) + seq![
                        Effect::SourceActions { offer: o, actions },
                        Effect::Enter { device: d, serial, surface, x, y, with_offer: Some(o) },
                    ])
                },
                false => prev.push(
                    Effect::Enter { device: d, serial, surface, x, y, with_offer: None },
                ),
            }
        } else {
            prev
        }
    }
}

/// `leave` to each device.
pub open spec fn leave_effects(ds: Seq<ObjectId>) -> Seq<Effect> {
    ds.map_values(|d: ObjectId| Effect::Leave { device: d })
}

/// `motion` to each device.
pub open spec fn motion_effects(ds: Seq<ObjectId>, time: u32, x: i32, y: i32) -> Seq<Effect> {
    ds.map_values(|d: ObjectId| Effect::Motion { device: d, time, x, y })
}

/// `drop` to each device.
pub open spec fn drop_effects(ds: Seq<ObjectId>) -> Seq<Effect> {
    ds.map_values(|d: ObjectId| Effect::Drop { device: d })
}

/// The surface can receive the drag: alive, and of the client that started
/// it when the drag has no source (neither a client's nor the compositor's).
pub open spec fn compatible(reg: Registry, source: Option<ObjectId>, server: bool, origin: ObjectId, s: ObjectId) -> bool {
    &&& reg.live(s)
    &&& (source is Some || server || (reg.has_object(origin) && reg.owner(s) == reg.owner(origin)))
}

/// The MIME types and actions of the drag's source: the compositor's, or
/// the client source's as the registry holds them.
pub open spec fn source_mimes(reg: Registry, source: Option<ObjectId>, server: Option<SourceMetadata>) -> Seq<String> {
    match server {
        Some(m) => m.mime_types@,
        None => client_mimes(reg, source),
    }
}

pub open spec fn client_mimes(reg: Registry, source: Option<ObjectId>) -> Seq<String> {
    match source {
        Some(src) => if reg.has_object(src) && reg.data()[src as int] is Source {
            reg.data()[src as int]->Source_0.meta.mime_types@
        } else {
            Seq::empty()
        },
        None => Seq::empty(),
    }
}

pub open spec fn source_actions(reg: Registry, source: Option<ObjectId>, server: Option<SourceMetadata>) -> DndAction {
    match server {
        Some(m) => m.dnd_action,
        None => client_actions(reg, source),
    }
}

pub open spec fn client_actions(reg: Registry, source: Option<ObjectId>) -> DndAction {
    match source {
        Some(src) => if reg.has_object(src) && reg.data()[src as int] is Source {
            reg.data()[src as int]->Source_0.meta.dnd_action
        } else {
            DndAction::none()
        },
        None => DndAction::none(),
    }
}

/// With the reference chooser, the action sent to the offer and to the
/// source of a drag is `choose_action` of the actions that the source offers
/// and the target supports, and of the target's preferred action.
pub proof fn lemma_default_negotiation(
    offered: DndAction,
    supported: DndAction,
    preferred: DndAction,
    chosen: DndAction,
)
    requires
        call_ensures(default_action_chooser, (offered.meet(supported), preferred), chosen),
    ensures
        chosen == choose_action(offered.meet(supported), preferred),
{
}

/// A live source stays alive across registry steps that only add objects,
/// which is all that the steps of a drag do to the registry: a drag never
/// destroys its source.
pub proof fn lemma_source_kept(before: Registry, after: Registry, src: ObjectId)
    requires
        after.extends(&before),
        before.live(src),
    ensures
        after.live(src),
{
    assert(after.alive_flags().subrange(0, before.objects().len() as int)[src as int]
        == after.alive_flags()[src as int]);
}

/// A drag-and-drop started by a client.
#[derive(Debug)]
pub struct DnDGrab {
    source: Option<ObjectId>,
    server: Option<SourceMetadata>,
    origin: ObjectId,
    icon: Option<ObjectId>,
    serial: u32,
    state: DndState,
    devices: Vec<ObjectId>,
    accepted: bool,
    chosen: DndAction,
}

impl DnDGrab {
    pub closed spec fn source_spec(&self) -> Option<ObjectId> {
        self.source
    }

    /// The compositor's source, for a drag that the compositor started.
    pub closed spec fn server_spec(&self) -> Option<SourceMetadata> {
        self.server
    }

    pub open spec fn is_server(&self) -> bool {
        self.server_spec() is Some
    }

    /// The drag has a source, so targets get offers.
    pub open spec fn offered(&self) -> bool {
        self.source_spec() is Some || self.is_server()
    }

    pub closed spec fn origin_spec(&self) -> ObjectId {
        self.origin
    }

    /// Serial of the pointer grab that started the drag.
    pub closed spec fn serial_spec(&self) -> u32 {
        self.serial
    }

    pub closed spec fn state_spec(&self) -> DndState {
        self.state
    }

    /// The data devices of the current target.
    pub closed spec fn devices_spec(&self) -> Seq<ObjectId> {
        self.devices@
    }

    /// The icon surface of the drag.
    pub closed spec fn icon_spec(&self) -> Option<ObjectId> {
        self.icon
    }

    pub closed spec fn accepted_spec(&self) -> bool {
        self.accepted
    }

    pub closed spec fn chosen_spec(&self) -> DndAction {
        self.chosen
    }

    /// A drag of `source` (or of nothing, within one client) from surface
    /// `origin`, started by the pointer grab of `serial`.
    pub fn new(source: Option<ObjectId>, origin: ObjectId, icon: Option<ObjectId>, serial: u32) -> (r: DnDGrab)
        ensures
            r.source_spec() == source,
            r.server_spec() is None,
            r.origin_spec() == origin,
            r.serial_spec() == serial,
            r.state_spec() == DndState::Pointing,
            r.devices_spec().len() == 0,
            r.icon_spec() == icon,
            !r.accepted_spec(),
            r.chosen_spec() == DndAction::none(),
    {
        DnDGrab {
            source,
            server: None,
            origin,
            icon,
            serial,
            state: DndState::Pointing,
            devices: Vec::new(),
            accepted: false,
            chosen: DndAction::empty(),
        }
    }

    pub fn state(&self) -> (r: DndState)
        ensures
            r == self.state_spec(),
    {
        self.state
    }

    pub fn source(&self) -> (r: Option<ObjectId>)
        ensures
            r == self.source_spec(),
    {
        self.source
    }

    pub fn icon(&self) -> (r: Option<ObjectId>)
        ensures
            r == self.icon_spec(),
    {
        self.icon
    }

    /// The action chosen with the target.
    pub fn chosen_action(&self) -> (r: DndAction)
        ensures
            r == self.chosen_spec(),
    {
        self.chosen
    }

    /// Sends `leave` to the devices of the current target and forgets them.
    fn leave_target(&mut self, out: &mut Vec<Effect>)
        ensures
            final(out)@ == old(out)@ + leave_effects(old(self).devices_spec()),
            final(self).devices_spec().len() == 0,
            final(self).source_spec() == old(self).source_spec(),
            final(self).origin_spec() == old(self).origin_spec(),
            final(self).serial_spec() == old(self).serial_spec(),
            final(self).server_spec() == old(self).server_spec(),
            final(self).state_spec() == old(self).state_spec(),
            final(self).chosen_spec() == old(self).chosen_spec(),
            !final(self).accepted_spec(),
    {
        let ghost start = out@;
        let mut i: usize = 0;
        while i < self.devices.len()
            invariant
                i <= self.devices@.len(),
                out@ == start + leave_effects(self.devices@.subrange(0, i as int)),
            decreases self.devices@.len() - i,
        {
            out.push(Effect::Leave { device: self.devices[i] });
            i += 1;
            proof {
                assert(leave_effects(self.devices@.subrange(0, i as int)) =~= leave_effects(
                    self.devices@.subrange(0, i - 1),
                ).push(Effect::Leave { device: self.devices@[i - 1] }));
            }
        }
        proof {
            assert(self.devices@.subrange(0, self.devices@.len() as int) =~= self.devices@);
        }
        self.devices = Vec::new();
        self.accepted = false;
    }

    /// The pointer moved over surface `hit` (or over no surface), at fixed
    /// point coordinates `x`, `y` in it.
    ///
    /// Over the same target, its devices get `motion`. Over another one, the
    /// old target gets `leave`; a compatible surface then gets an offer and
    /// `enter` on each data device of its client, and becomes the target.
    pub fn motion(
        &mut self,
        seat: &SeatData,
        reg: &mut Registry,
        hit: Option<ObjectId>,
        x: i32,
        y: i32,
        time: u32,
    ) -> (out: Vec<Effect>)
        requires
            old(reg).wf(),
            old(reg).objects().len() + seat.devices().len() <= u32::MAX,
        ensures
            final(reg).wf(),
            final(reg).extends(old(reg)),
            final(self).source_spec() == old(self).source_spec(),
            final(self).server_spec() == old(self).server_spec(),
            final(self).origin_spec() == old(self).origin_spec(),
            ({
                let target = match hit {
                    Some(s) => if compatible(*old(reg), old(self).source_spec(), old(self).is_server(), old(self).origin_spec(), s) {
                        Some(s)
                    } else {
                        None
                    },
                    None => None,
                };
                let current = match old(self).state_spec() {
                    DndState::OnTarget(t) => Some(t),
                    _ => None,
                };
                if target is Some && target == current {
                    &&& out@ == motion_effects(old(self).devices_spec(), time, x, y)
                    &&& *final(reg) == *old(reg)
                    &&& final(self).state_spec() == old(self).state_spec()
                    &&& final(self).devices_spec() == old(self).devices_spec()
                } else {
                    let lv = leave_effects(old(self).devices_spec());
                    &&& out@.len() >= lv.len()
                    &&& out@.subrange(0, lv.len() as int) == lv
                    &&& match target {
                        Some(s) => {
                            let c = old(reg).owner(s);
                            &&& final(self).state_spec() == DndState::OnTarget(s)
                            &&& out@.subrange(lv.len() as int, out@.len() as int) == enter_effects(
                                *old(reg),
                                c,
                                seat.devices(),
                                old(reg).objects().len(),
                                s,
                                old(self).serial_spec(),
                                x,
                                y,
                                old(self).offered(),
                                source_mimes(*old(reg), old(self).source_spec(), old(self).server_spec()),
                                source_actions(*old(reg), old(self).source_spec(), old(self).server_spec()),
                            )
                            &&& final(self).devices_spec() == seat.devices().filter(
                                |d: ObjectId| device_of(*old(reg), c, d),
                            )
                        },
                        None => {
                            &&& out@.len() == lv.len()
                            &&& final(self).state_spec() == match old(self).state_spec() {
                                DndState::OnTarget(_) => DndState::Pointing,
                                st => st,
                            }
                            &&& *final(reg) == *old(reg)
                        },
                    }
                }
            }),
    {
        let target = match hit {
            Some(s) => {
                let ok = reg.is_alive(s) && (self.source.is_some() || self.server.is_some() || (
                self.origin < reg.len() && reg.same_client(s, self.origin)));
                if ok {
                    Some(s)
                } else {
                    None
                }
            },
            None => None,
        };
        let current = match self.state {
            DndState::OnTarget(t) => Some(t),
            _ => None,
        };
        let mut out: Vec<Effect> = Vec::new();
        let same = match (target, current) {
            (Some(a), Some(b)) => a == b,
            _ => false,
        };
        if same {
            let mut i: usize = 0;
            while i < self.devices.len()
                invariant
                    i <= self.devices@.len(),
                    out@ == motion_effects(self.devices@.subrange(0, i as int), time, x, y),
                decreases self.devices@.len() - i,
            {
                out.push(Effect::Motion { device: self.devices[i], time, x, y });
                i += 1;
                proof {
                    assert(motion_effects(self.devices@.subrange(0, i as int), time, x, y)
                        =~= motion_effects(self.devices@.subrange(0, i - 1), time, x, y).push(
                        Effect::Motion { device: self.devices@[i - 1], time, x, y },
                    ));
                }
            }
            proof {
                assert(self.devices@.subrange(0, self.devices@.len() as int) =~= self.devices@);
                reg.lemma_extends_refl();
            }
            return out;
        }
        self.leave_target(&mut out);
        let ghost lv = out@;
        match target {
            None => {
                if let DndState::OnTarget(_) = self.state {
                    self.state = DndState::Pointing;
                }
                proof {
                    reg.lemma_extends_refl();
                    assert(out@.subrange(0, lv.len() as int) =~= lv);
                }
            },
            Some(s) => {
                let mut rest = self.enter_target(seat, reg, s, x, y);
                let ghost tail = rest@;
                out.append(&mut rest);
                proof {
                    assert(out@.subrange(0, lv.len() as int) =~= lv);
                    assert(out@.subrange(lv.len() as int, out@.len() as int) =~= tail);
                }
            },
        }
        out
    }

    /// Makes surface `s` the target: an offer and `enter` for each of the
    /// data devices of its client.
    fn enter_target(&mut self, seat: &SeatData, reg: &mut Registry, s: ObjectId, x: i32, y: i32) -> (out: Vec<Effect>)
        requires
            old(reg).wf(),
            old(reg).live(s),
            old(reg).objects().len() + seat.devices().len() <= u32::MAX,
        ensures
            final(reg).wf(),
            final(reg).extends(old(reg)),
            final(self).source_spec() == old(self).source_spec(),
            final(self).server_spec() == old(self).server_spec(),
            final(self).origin_spec() == old(self).origin_spec(),
            final(self).state_spec() == DndState::OnTarget(s),
            out@ == enter_effects(
                *old(reg),
                old(reg).owner(s),
                seat.devices(),
                old(reg).objects().len(),
                s,
                old(self).serial_spec(),
                x,
                y,
                old(self).offered(),
                source_mimes(*old(reg), old(self).source_spec(), old(self).server_spec()),
                source_actions(*old(reg), old(self).source_spec(), old(self).server_spec()),
            ),
            final(self).devices_spec() == seat.devices().filter(
                |d: ObjectId| device_of(*old(reg), old(reg).owner(s), d),
            ),
    {
        proof {
            reg.lemma_wf();
        }
        let ghost reg0 = *reg;
        let c = reg.owner_of(s);
        let ghost p = |d: ObjectId| device_of(reg0, c, d);
        let (mimes, actions) = match &self.server {
            Some(m) => (crate::data_device::copy_strings(&m.mime_types), m.dnd_action),
            None => match self.source {
            Some(src) => if src < reg.len() {
                match reg.data_of(src) {
                    UserData::Source(st) => (crate::data_device::copy_strings(&st.meta.mime_types), st.meta.dnd_action),
                    _ => (Vec::new(), DndAction::empty()),
                }
            } else {
                (Vec::new(), DndAction::empty())
            },
            None => (Vec::new(), DndAction::empty()),
            },
        };
        let offered = self.source.is_some() || self.server.is_some();
        proof {
            assert(mimes@ =~= source_mimes(reg0, self.source, self.server));
        }
        let first = reg.len();
        self.devices = Vec::new();
        self.accepted = false;
        self.state = DndState::OnTarget(s);
        let mut out: Vec<Effect> = Vec::new();
        let ds = seat.known_devices();
        let mut i: usize = 0;
        proof {
            reg.lemma_extends_refl();
            crate::data_device::lemma_count_owned_le(reg0, c, ds@);
        }
        while i < ds.len()
            invariant
                reg0.wf(),
                reg.wf(),
                reg.extends(&reg0),
                p == (|d: ObjectId| device_of(reg0, c, d)),
                first == reg0.objects().len(),
                reg0.objects().len() + ds@.len() <= u32::MAX,
                count_owned(reg0, c, ds@) <= ds@.len(),
                i <= ds@.len(),
                c == reg0.owner(s),
                reg0.live(s),
                mimes@ == source_mimes(reg0, self.source, self.server),
                actions == source_actions(reg0, self.source, self.server),
                offered == (self.source is Some || self.server is Some),
                self.source == old(self).source,
                self.server == old(self).server,
                self.origin == old(self).origin,
                self.serial == old(self).serial_spec(),
                self.state == DndState::OnTarget(s),
                out@ == enter_effects(reg0, c, ds@.subrange(0, i as int), first as nat, s, self.serial, x, y, offered, mimes@, actions),
                self.devices@ == ds@.subrange(0, i as int).filter(p),
                reg.objects().len() == first + (if offered {
                    count_owned(reg0, c, ds@.subrange(0, i as int))
                } else {
                    0
                }),
            decreases ds@.len() - i,
        {
            let d = ds[i];
            let ghost pre = ds@.subrange(0, i as int);
            let ghost reg_before = *reg;
            proof {
                reveal(Seq::filter);
                assert(ds@.subrange(0, i + 1).drop_last() =~= pre);
                assert(ds@.subrange(0, i + 1).last() == d);
                crate::data_device::lemma_count_owned_le(reg0, c, pre);
            }
            if d < first && reg.is_alive(d) && reg.is_owned_by(d, c) {
                proof {
                    assert(reg.alive_flags().subrange(0, first as int)[d as int] == reg.alive_flags()[d as int]);
                    assert(reg.objects().subrange(0, first as int)[d as int] == reg.objects()[d as int]);
                    assert(device_of(reg0, c, d));
                    reg.lemma_live_owner(d);
                }
                match offered {
                    true => {
                        let kind = match &self.server {
                            Some(m) => OfferKind::ServerDnd(m.duplicate()),
                            None => match self.source {
                                Some(src) => OfferKind::Dnd(src),
                                // not reached: a drag that makes offers has a source
                                None => OfferKind::Dnd(0),
                            },
                        };
                        let version = reg.version(d);
                        let o = reg.create(c, version, UserData::Offer(kind));
                        let ghost before = out@;
                        out.push(Effect::DataOffer { device: d, offer: o });
                        let mut j: usize = 0;
                        while j < mimes.len()
                            invariant
                                j <= mimes@.len(),
                                out@ == before + seq![Effect::DataOffer { device: d, offer: o }] + mimes@.subrange(0, j as int).map_values(
                                    |m: String| Effect::Offer { offer: o, mime_type: m },
                                ),
                            decreases mimes@.len() - j,
                        {
                            out.push(Effect::Offer { offer: o, mime_type: mimes[j].clone() });
                            j += 1;
                            proof {
                                assert(mimes@.subrange(0, j as int).map_values(
                                    |m: String| Effect::Offer { offer: o, mime_type: m },
                                ) =~= mimes@.subrange(0, j - 1).map_values(
                                    |m: String| Effect::Offer { offer: o, mime_type: m },
                                ).push(Effect::Offer { offer: o, mime_type: mimes@[j - 1] }));
                            }
                        }
                        out.push(Effect::SourceActions { offer: o, actions });
                        out.push(Effect::Enter { device: d, serial: self.serial, surface: s, x, y, with_offer: Some(o) });
                        proof {
                            assert(mimes@.subrange(0, mimes@.len() as int) =~= mimes@);
                            Registry::lemma_extends_trans(&reg0, &reg_before, reg);
                            assert(out@ =~= before + (seq![Effect::DataOffer { device: d, offer: o }] + mimes@.map_values(
                                |m: String| Effect::Offer { offer: o, mime_type: m },
                            ) + seq![
                                Effect::SourceActions { offer: o, actions },
                                Effect::Enter { device: d, serial: self.serial, surface: s, x, y, with_offer: Some(o) },
                            ]));
                        }
                    },
                    false => {
                        out.push(Effect::Enter { device: d, serial: self.serial, surface: s, x, y, with_offer: None });
                    },
                }
                self.devices.push(d);
                proof {
                    assert(ds@.subrange(0, i + 1).filter(p) == pre.filter(p).push(d));
                }
            } else {
                proof {
                    if d < first {
                        assert(reg.alive_flags().subrange(0, first as int)[d as int] == reg.alive_flags()[d as int]);
                        assert(reg.objects().subrange(0, first as int)[d as int] == reg.objects()[d as int]);
                    }
                    assert(!device_of(reg0, c, d));
                    assert(ds@.subrange(0, i + 1).filter(p) == pre.filter(p));
                }
            }
            i += 1;
        }
        proof {
            assert(ds@.subrange(0, ds@.len() as int) =~= ds@);
        }
        out
    }

    /// `wl_data_offer.accept`: the target accepts a MIME type, or none.
    pub fn accept(&mut self, mime_type: Option<String>) -> (out: Vec<Effect>)
        ensures
            final(self).accepted_spec() == (mime_type is Some),
            final(self).state_spec() == old(self).state_spec(),
            final(self).devices_spec() == old(self).devices_spec(),
            final(self).source_spec() == old(self).source_spec(),
            final(self).server_spec() == old(self).server_spec(),
            final(self).chosen_spec() == old(self).chosen_spec(),
            out@ == match old(self).source_spec() {
                Some(src) => seq![Effect::Target { source: src, accepted: mime_type }],
                None => seq![],
            },
    {
        self.accepted = mime_type.is_some();
        let mut out: Vec<Effect> = Vec::new();
        match self.source {
            Some(src) => out.push(Effect::Target { source: src, accepted: mime_type }),
            None => {},
        }
        out
    }

    /// `wl_data_offer.set_actions`: the target supports `supported` and
    /// prefers `preferred`. The action is chosen by `chooser` among the
    /// actions that the source offers and the target supports, and sent to
    /// the offer and to the source.
    pub fn set_target_actions<F: FnOnce(DndAction, DndAction) -> DndAction>(
        &mut self,
        reg: &Registry,
        offer: ObjectId,
        supported: DndAction,
        preferred: DndAction,
        chooser: F,
    ) -> (out: Vec<Effect>)
        requires
            reg.wf(),
            chooser.requires((source_actions(*reg, old(self).source_spec(), old(self).server_spec()).meet(supported), preferred)),
        ensures
            chooser.ensures(
                (source_actions(*reg, old(self).source_spec(), old(self).server_spec()).meet(supported), preferred),
                final(self).chosen_spec(),
            ),
            final(self).state_spec() == old(self).state_spec(),
            final(self).devices_spec() == old(self).devices_spec(),
            final(self).source_spec() == old(self).source_spec(),
            final(self).server_spec() == old(self).server_spec(),
            final(self).accepted_spec() == old(self).accepted_spec(),
            out@ == seq![Effect::OfferAction { offer, action: final(self).chosen_spec() }] + match old(self).source_spec() {
                Some(src) => seq![Effect::SourceAction { source: src, action: final(self).chosen_spec() }],
                None => if old(self).is_server() {
                    seq![Effect::ServerDnd(ServerDndEvent::Action(final(self).chosen_spec()))]
                } else {
                    seq![]
                },
            },
    {
        let offered = match &self.server {
            Some(m) => m.dnd_action,
            None => match self.source {
                Some(src) => if src < reg.len() {
                    match reg.data_of(src) {
                        UserData::Source(st) => st.meta.dnd_action,
                        _ => DndAction::empty(),
                    }
                } else {
                    DndAction::empty()
                },
                None => DndAction::empty(),
            },
        };
        let available = offered.intersection(supported);
        let action = chooser(available, preferred);
        self.chosen = action;
        let mut out: Vec<Effect> = Vec::new();
        out.push(Effect::OfferAction { offer, action });
        match self.source {
            Some(src) => out.push(Effect::SourceAction { source: src, action }),
            None => if self.server.is_some() {
                out.push(Effect::ServerDnd(ServerDndEvent::Action(action)));
            },
        }
        proof {
            reg.lemma_wf();
        }
        out
    }

    /// The pointer button was released: the drag ends.
    ///
    /// Over a target that accepted a type, with an action chosen, the target
    /// devices get `drop` (and a client source of version 3 and above
    /// `dnd_drop_performed`; it stays alive until the target finishes).
    /// Otherwise the source gets `cancelled` and the target `leave`. The
    /// compositor is told that the drag was dropped, or for a drag it
    /// started, whether it was dropped or cancelled.
    pub fn button_release(&mut self, reg: &Registry) -> (out: Vec<Effect>)
        requires
            reg.wf(),
        ensures
            final(self).source_spec() == old(self).source_spec(),
            final(self).server_spec() == old(self).server_spec(),
            ({
                let validated = old(self).state_spec() is OnTarget && old(self).accepted_spec()
                    && old(self).chosen_spec() != DndAction::none();
                if validated {
                    &&& final(self).state_spec() == DndState::Dropped(Some(old(self).state_spec()->OnTarget_0))
                    &&& out@ == drop_effects(old(self).devices_spec()) + match old(self).source_spec() {
                        Some(src) => if reg.has_object(src) && reg.objects()[src as int].version >= ACTIONS_SINCE_VERSION {
                            seq![Effect::DropPerformed { source: src }]
                        } else {
                            seq![]
                        },
                        None => seq![],
                    } + seq![dropped_notice(old(self).is_server())]
                } else {
                    &&& final(self).state_spec() == DndState::Finished
                    &&& out@ == match old(self).source_spec() {
                        Some(src) => seq![Effect::Cancelled { source: src }],
                        None => seq![],
                    } + leave_effects(old(self).devices_spec()) + seq![cancelled_notice(old(self).is_server())]
                }
            }),
    {
        let dropped_on = match self.state {
            DndState::OnTarget(t) => if self.accepted && !self.chosen.is_empty() {
                Some(t)
            } else {
                None
            },
            _ => None,
        };
        let server = self.server.is_some();
        let mut out: Vec<Effect> = Vec::new();
        if let Some(t) = dropped_on {
            let mut i: usize = 0;
            while i < self.devices.len()
                invariant
                    i <= self.devices@.len(),
                    out@ == drop_effects(self.devices@.subrange(0, i as int)),
                decreases self.devices@.len() - i,
            {
                out.push(Effect::Drop { device: self.devices[i] });
                i += 1;
                proof {
                    assert(drop_effects(self.devices@.subrange(0, i as int)) =~= drop_effects(
                        self.devices@.subrange(0, i - 1),
                    ).push(Effect::Drop { device: self.devices@[i - 1] }));
                }
            }
            proof {
                assert(self.devices@.subrange(0, self.devices@.len() as int) =~= self.devices@);
            }
            let ghost drops = out@;
            match self.source {
                Some(src) => {
                    if reg.version(src) >= ACTIONS_SINCE_VERSION {
                        out.push(Effect::DropPerformed { source: src });
                    }
                },
                None => {},
            }
            let ghost performed = out@;
            out.push(dropped_effect(server));
            self.state = DndState::Dropped(Some(t));
            proof {
                let notice = seq![dropped_notice(server)];
                match self.source {
                    Some(src) => {
                        if reg.has_object(src) && reg.objects()[src as int].version >= ACTIONS_SINCE_VERSION {
                            assert(performed =~= drops + seq![Effect::DropPerformed { source: src }]);
                        } else {
                            assert(performed =~= drops + Seq::<Effect>::empty());
                        }
                    },
                    None => {
                        assert(performed =~= drops + Seq::<Effect>::empty());
                    },
                }
                assert(out@ =~= performed + notice);
            }
        } else {
            match self.source {
                Some(src) => out.push(Effect::Cancelled { source: src }),
                None => {},
            }
            let ghost first = out@;
            self.leave_target(&mut out);
            out.push(cancelled_effect(server));
            self.state = DndState::Finished;
            proof {
                assert(out@ =~= first + leave_effects(old(self).devices@) + seq![cancelled_notice(server)]);
            }
        }
        out
    }

    /// `wl_data_offer.finish`: the target is done with a dropped drag.
    pub fn finish(&mut self) -> (out: Vec<Effect>)
        ensures
            final(self).source_spec() == old(self).source_spec(),
            old(self).state_spec() is Dropped ==> {
                &&& final(self).state_spec() == DndState::Finished
                &&& out@ == match old(self).source_spec() {
                    Some(src) => seq![Effect::DndFinished { source: src }],
                    None => if old(self).is_server() {
                        seq![Effect::ServerDnd(ServerDndEvent::Finished)]
                    } else {
                        seq![]
                    },
                }
            },
            !(old(self).state_spec() is Dropped) ==> out@.len() == 0 && final(self).state_spec() == old(self).state_spec(),
    {
        let mut out: Vec<Effect> = Vec::new();
        if let DndState::Dropped(_) = self.state {
            self.state = DndState::Finished;
            match self.source {
                Some(src) => out.push(Effect::DndFinished { source: src }),
                None => if self.server.is_some() {
                    out.push(Effect::ServerDnd(ServerDndEvent::Finished));
                },
            }
        }
        out
    }

    /// The target surface died: its devices get `leave` and the drag points
    /// at nothing again. Nothing happens when there is no target.
    pub fn target_destroyed(&mut self) -> (out: Vec<Effect>)
        ensures
            final(self).source_spec() == old(self).source_spec(),
            final(self).server_spec() == old(self).server_spec(),
            old(self).state_spec() is OnTarget ==> {
                &&& final(self).state_spec() == DndState::Pointing
                &&& out@ == leave_effects(old(self).devices_spec())
                &&& final(self).devices_spec().len() == 0
            },
            !(old(self).state_spec() is OnTarget) ==> {
                &&& final(self).state_spec() == old(self).state_spec()
                &&& out@.len() == 0
            },
    {
        let mut out: Vec<Effect> = Vec::new();
        if let DndState::OnTarget(_) = self.state {
            self.leave_target(&mut out);
            self.state = DndState::Pointing;
            proof {
                assert(out@ =~= leave_effects(old(self).devices@));
            }
        }
        out
    }

    /// The pointer grab was ended from outside (the seat went away): the
    /// drag is over, and nobody is told.
    pub fn grab_ended(&mut self)
        ensures
            final(self).state_spec() == DndState::Finished,
            final(self).source_spec() == old(self).source_spec(),
            final(self).server_spec() == old(self).server_spec(),
    {
        self.state = DndState::Finished;
    }

    /// The source of the drag died: the target gets `leave` and the drag is over.
    pub fn source_destroyed(&mut self) -> (out: Vec<Effect>)
        ensures
            final(self).state_spec() == DndState::Finished,
            out@ == leave_effects(old(self).devices_spec()),
    {
        let mut out: Vec<Effect> = Vec::new();
        self.leave_target(&mut out);
        self.state = DndState::Finished;
        proof {
            assert(out@ =~= leave_effects(old(self).devices@));
        }
        out
    }
}

/// `wl_data_device.start_drag`: a client starts a drag of `source` (or of
/// nothing) from surface `origin`, with an `icon` surface, in answer to the
/// pointer grab of `serial`.
///
/// `pointer_grab` is the serial of the pointer's current implicit grab on
/// this seat, if any; a request with another serial is ignored. The icon is
/// given the role `"dnd_icon"`; when it already has a role, a protocol error
/// is posted on the device and nothing else happens. Otherwise the
/// compositor is told that a drag started, the source can no longer change,
/// and the drag grab is returned, for the compositor to install on the pointer.
pub fn start_drag(
    reg: &mut Registry,
    device: ObjectId,
    source: Option<ObjectId>,
    origin: ObjectId,
    icon: Option<ObjectId>,
    serial: u32,
    pointer_grab: Option<u32>,
) -> (r: (Vec<Effect>, Option<DnDGrab>))
    requires
        old(reg).wf(),
    ensures
        final(reg).wf(),
        pointer_grab != Some(serial) ==> {
            &&& r.0@.len() == 0
            &&& r.1 is None
            &&& *final(reg) == *old(reg)
        },
        pointer_grab == Some(serial) && icon_taken(*old(reg), icon) ==> {
            &&& r.0@ == seq![Effect::Error { object: device, error: ProtocolError::Role }]
            &&& r.1 is None
            &&& *final(reg) == *old(reg)
        },
        pointer_grab == Some(serial) && !icon_taken(*old(reg), icon) ==> {
            &&& r.0@ == seq![Effect::Notify(DataDeviceEvent::DnDStarted { source, icon })]
            &&& r.1 matches Some(g) && g.source_spec() == source && g.origin_spec() == origin
                && g.serial_spec() == serial && g.state_spec() == DndState::Pointing
            &&& final(reg).roles() == match icon {
                Some(i) => old(reg).roles().update(i as int, Some(DND_ICON_ROLE@)),
                None => old(reg).roles(),
            }
            &&& final(reg).objects() == old(reg).objects()
            &&& final(reg).alive_flags() == old(reg).alive_flags()
            &&& final(reg).data() == match source {
                Some(src) => if old(reg).has_object(src) && old(reg).data()[src as int] is Source {
                    old(reg).data().update(src as int, UserData::Source(crate::data_device::frozen_state(old(reg).data()[src as int]->Source_0)))
                } else {
                    old(reg).data()
                },
                None => old(reg).data(),
            }
        },
{
    let mut out: Vec<Effect> = Vec::new();
    let granted = match pointer_grab {
        Some(s) => s == serial,
        None => false,
    };
    if !granted {
        return (out, None);
    }
    match icon {
        Some(i) => {
            if i >= reg.len() {
                out.push(Effect::Error { object: device, error: ProtocolError::Role });
                return (out, None);
            }
            match reg.give_role(i, DND_ICON_ROLE) {
                Ok(()) => {},
                Err(_) => {
                    out.push(Effect::Error { object: device, error: ProtocolError::Role });
                    return (out, None);
                },
            }
        },
        None => {},
    }
    let ghost mid = *reg;
    match source {
        Some(src) => freeze_source(reg, src),
        None => {
            proof {
                assert(reg.data() =~= mid.data());
            }
        },
    }
    out.push(Effect::Notify(DataDeviceEvent::DnDStarted { source, icon }));
    let g = DnDGrab::new(source, origin, icon, serial);
    proof {
        assert(froze(mid, *reg, source));
        assert(reg.roles() == mid.roles());
        assert(mid.roles() == match icon {
            Some(i) => old(reg).roles().update(i as int, Some(DND_ICON_ROLE@)),
            None => old(reg).roles(),
        });
        assert(mid.data() == old(reg).data());
        assert(mid.objects() == old(reg).objects());
        assert(mid.alive_flags() == old(reg).alive_flags());
        assert(out@ =~= seq![Effect::Notify(DataDeviceEvent::DnDStarted { source, icon })]);
    }
    (out, Some(g))
}

/// What the compositor is told when a drag is dropped: `DnDDropped` for a
/// client's drag, `Dropped` for its own.
pub open spec fn dropped_notice(server: bool) -> Effect {
    if server {
        Effect::ServerDnd(ServerDndEvent::Dropped)
    } else {
        Effect::Notify(DataDeviceEvent::DnDDropped)
    }
}

/// What the compositor is told when a drag is cancelled: `DnDDropped` for a
/// client's drag (the button was released), `Cancelled` for its own.
pub open spec fn cancelled_notice(server: bool) -> Effect {
    if server {
        Effect::ServerDnd(ServerDndEvent::Cancelled)
    } else {
        Effect::Notify(DataDeviceEvent::DnDDropped)
    }
}

fn dropped_effect(server: bool) -> (r: Effect)
    ensures
        r == dropped_notice(server),
{
    if server {
        Effect::ServerDnd(ServerDndEvent::Dropped)
    } else {
        Effect::Notify(DataDeviceEvent::DnDDropped)
    }
}

fn cancelled_effect(server: bool) -> (r: Effect)
    ensures
        r == cancelled_notice(server),
{
    if server {
        Effect::ServerDnd(ServerDndEvent::Cancelled)
    } else {
        Effect::Notify(DataDeviceEvent::DnDDropped)
    }
}

/// Starts a drag-and-drop from the compositor, with the given metadata, on
/// the pointer grab of `serial`. The seat needs a pointer (`has_pointer`);
/// without one nothing happens. The returned grab is for the compositor to
/// install on the pointer; what clients do with the drag comes back as
/// [`ServerDndEvent`]s.
pub fn start_dnd(serial: u32, metadata: SourceMetadata, has_pointer: bool) -> (r: Option<DnDGrab>)
    ensures
        has_pointer <==> r is Some,
        r matches Some(g) ==> {
            &&& g.source_spec() is None
            &&& g.server_spec() == Some(metadata)
            &&& g.serial_spec() == serial
            &&& g.state_spec() == DndState::Pointing
            &&& g.devices_spec().len() == 0
            &&& !g.accepted_spec()
            &&& g.chosen_spec() == DndAction::none()
        },
{
    if !has_pointer {
        return None;
    }
    Some(DnDGrab {
        source: None,
        server: Some(metadata),
        origin: 0,
        icon: None,
        serial,
        state: DndState::Pointing,
        devices: Vec::new(),
        accepted: false,
        chosen: DndAction::empty(),
    })
}

/// The icon surface cannot take the drag-and-drop icon role: it is unknown
/// or already has a role.
pub open spec fn icon_taken(reg: Registry, icon: Option<ObjectId>) -> bool {
    match icon {
        Some(i) => !reg.has_object(i) || reg.roles()[i as int] is Some,
        None => false,
    }
}

} // verus!
