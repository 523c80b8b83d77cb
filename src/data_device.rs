//! The data device: clipboard selection and drag-and-drop between clients.
//!
//! Each seat keeps a [`SeatData`]: the data devices bound on it, the current
//! selection and the client that has the keyboard focus. Requests from clients
//! and calls from the compositor return the [`Effect`]s they cause, in order:
//! events for clients and notifications for the compositor.

use crate::registry::{ClientId, ObjectId, ObjectInfo, Registry, UserData};
use vstd::prelude::*;

verus! {

/// Role given to a surface used as a drag-and-drop icon.
pub const DND_ICON_ROLE: &'static str = "dnd_icon";

/// Version of the data device global.
pub const DATA_DEVICE_VERSION: u32 = 3;

/// Lowest data source version that supports `set_actions`.
pub const ACTIONS_SINCE_VERSION: u32 = 3;

/// A set of drag-and-drop actions.
#[derive(Clone, Copy, Debug, PartialEq, Eq, Structural)]
pub struct DndAction {
    pub copy: bool,
    pub move_: bool,
    pub ask: bool,
}

impl DndAction {
    pub open spec fn none() -> DndAction {
        DndAction { copy: false, move_: false, ask: false }
    }

    pub open spec fn copy_spec() -> DndAction {
        DndAction { copy: true, move_: false, ask: false }
    }

    pub open spec fn move_spec() -> DndAction {
        DndAction { copy: false, move_: true, ask: false }
    }

    pub open spec fn ask_spec() -> DndAction {
        DndAction { copy: false, move_: false, ask: true }
    }

    /// Every action of `other` is in `self`.
    pub open spec fn includes(self, other: DndAction) -> bool {
        &&& other.copy ==> self.copy
        &&& other.move_ ==> self.move_
        &&& other.ask ==> self.ask
    }

    pub open spec fn meet(self, other: DndAction) -> DndAction {
        DndAction {
            copy: self.copy && other.copy,
            move_: self.move_ && other.move_,
            ask: self.ask && other.ask,
        }
    }

    /// Exactly one action.
    pub open spec fn is_single(self) -> bool {
        self == Self::copy_spec() || self == Self::move_spec() || self == Self::ask_spec()
    }

    /// The set as read from the wire: copy is bit 0, move bit 1, ask bit 2.
    pub open spec fn from_bits_spec(bits: u32) -> DndAction {
        DndAction { copy: bits & 1 != 0, move_: bits & 2 != 0, ask: bits & 4 != 0 }
    }

    /// The wire value of the set.
    pub open spec fn bits_spec(self) -> u32 {
        ((if self.copy { 1int } else { 0 }) + (if self.move_ { 2int } else { 0 }) + (if self.ask {
            4int
        } else {
            0
        })) as u32
    }

    pub fn empty() -> (r: DndAction)
        ensures
            r == Self::none(),
    {
        DndAction { copy: false, move_: false, ask: false }
    }

    pub fn copy_action() -> (r: DndAction)
        ensures
            r == Self::copy_spec(),
    {
        DndAction { copy: true, move_: false, ask: false }
    }

    pub fn move_action() -> (r: DndAction)
        ensures
            r == Self::move_spec(),
    {
        DndAction { copy: false, move_: true, ask: false }
    }

    pub fn ask_action() -> (r: DndAction)
        ensures
            r == Self::ask_spec(),
    {
        DndAction { copy: false, move_: false, ask: true }
    }

    pub fn is_empty(&self) -> (r: bool)
        ensures
            r == (*self == Self::none()),
    {
        !self.copy && !self.move_ && !self.ask
    }

    pub fn contains(&self, other: DndAction) -> (r: bool)
        ensures
            r == self.includes(other),
    {
        (!other.copy || self.copy) && (!other.move_ || self.move_) && (!other.ask || self.ask)
    }

    pub fn intersection(&self, other: DndAction) -> (r: DndAction)
        ensures
            r == self.meet(other),
    {
        DndAction {
            copy: self.copy && other.copy,
            move_: self.move_ && other.move_,
            ask: self.ask && other.ask,
        }
    }

    pub fn from_bits(bits: u32) -> (r: DndAction)
        ensures
            r == Self::from_bits_spec(bits),
    {
        DndAction { copy: bits & 1 != 0, move_: bits & 2 != 0, ask: bits & 4 != 0 }
    }

    pub fn bits(&self) -> (r: u32)
        ensures
            r == self.bits_spec(),
            r < 8,
    {
        let mut r: u32 = 0;
        if self.copy {
            r = r + 1;
        }
        if self.move_ {
            r = r + 2;
        }
        if self.ask {
            r = r + 4;
        }
        r
    }
}

/// The reference arbitration of a drag-and-drop action: the preferred action
/// when it is a single available action, else the first available of ask,
/// copy and move, else none.
pub open spec fn choose_action(available: DndAction, preferred: DndAction) -> DndAction {
    if preferred.is_single() && available.includes(preferred) {
        preferred
    } else if available.ask {
        DndAction::ask_spec()
    } else if available.copy {
        DndAction::copy_spec()
    } else if available.move_ {
        DndAction::move_spec()
    } else {
        DndAction::none()
    }
}

/// A simple action chooser for drag-and-drop negotiation.
///
/// If the preferred action is available, it is picked. Otherwise the first
/// available in this order: ask, copy, move.
pub fn default_action_chooser(available: DndAction, preferred: DndAction) -> (r: DndAction)
    ensures
        r == choose_action(available, preferred),
{
    let single = preferred == DndAction::move_action() || preferred == DndAction::copy_action()
        || preferred == DndAction::ask_action();
    if single && available.contains(preferred) {
        preferred
    } else if available.contains(DndAction::ask_action()) {
        DndAction::ask_action()
    } else if available.contains(DndAction::copy_action()) {
        DndAction::copy_action()
    } else if available.contains(DndAction::move_action()) {
        DndAction::move_action()
    } else {
        DndAction::empty()
    }
}

/// The list `ms` holds the MIME type `m`.
pub open spec fn has_mime(ms: Seq<String>, m: Seq<char>) -> bool {
    exists|i: int| 0 <= i < ms.len() && (#[trigger] ms[i])@ == m
}

/// Copies a list of strings.
pub fn copy_strings(v: &Vec<String>) -> (r: Vec<String>)
    ensures
        r@ == v@,
{
    let mut r: Vec<String> = Vec::new();
    let mut i: usize = 0;
    while i < v.len()
        invariant
            i <= v@.len(),
            r@ == v@.subrange(0, i as int),
        decreases v@.len() - i,
    {
        r.push(v[i].clone());
        i += 1;
        proof {
            assert(r@ =~= v@.subrange(0, i as int));
        }
    }
    proof {
        assert(v@.subrange(0, v@.len() as int) =~= v@);
    }
    r
}

/// Whether the list holds a MIME type.
pub fn mime_listed(ms: &Vec<String>, m: &String) -> (r: bool)
    ensures
        r == has_mime(ms@, m@),
{
    let mut i: usize = 0;
    while i < ms.len()
        invariant
            i <= ms@.len(),
            forall|j: int| 0 <= j < i ==> (#[trigger] ms@[j])@ != m@,
        decreases ms@.len() - i,
    {
        if ms[i] == *m {
            return true;
        }
        i += 1;
    }
    false
}

/// What a data source offers: its MIME types, in the order they were
/// announced, and its drag-and-drop actions.
#[derive(Debug, PartialEq)]
pub struct SourceMetadata {
    pub mime_types: Vec<String>,
    pub dnd_action: DndAction,
}

impl SourceMetadata {
    /// Same content as `other`.
    pub open spec fn same_as(&self, other: &SourceMetadata) -> bool {
        self.mime_types@ == other.mime_types@ && self.dnd_action == other.dnd_action
    }

    pub fn duplicate(&self) -> (r: SourceMetadata)
        ensures
            r.same_as(self),
    {
        SourceMetadata { mime_types: copy_strings(&self.mime_types), dnd_action: self.dnd_action }
    }
}

/// State of a data source created by a client.
#[derive(Debug, PartialEq)]
pub struct SourceState {
    pub meta: SourceMetadata,
    /// Set once the source is used for a selection or a drag: its actions
    /// and MIME types can no longer change.
    pub frozen: bool,
}

/// What a data offer reads from.
#[derive(Debug, PartialEq)]
pub enum OfferKind {
    /// The selection held by a client's data source.
    Selection(ObjectId),
    /// A selection set by the compositor.
    Compositor(SourceMetadata),
    /// The data source of a drag in progress.
    Dnd(ObjectId),
    /// A drag started by the compositor.
    ServerDnd(SourceMetadata),
}

/// The selection of a seat.
#[derive(Debug, PartialEq)]
pub enum Selection {
    Empty,
    Client(ObjectId),
    Compositor(SourceMetadata),
}

/// Protocol errors that the data device posts on the offending object.
#[derive(Clone, Copy, Debug, PartialEq, Eq, Structural)]
pub enum ProtocolError {
    /// The icon surface already has another role.
    Role,
    /// The action mask is not valid for this source.
    InvalidActionMask,
    /// The source was already used and cannot be changed.
    InvalidSource,
}

/// Notifications for the compositor.
#[derive(Debug, PartialEq)]
pub enum DataDeviceEvent {
    /// A client has set the selection.
    NewSelection(Option<ObjectId>),
    /// A client started a drag-and-drop.
    DnDStarted { source: Option<ObjectId>, icon: Option<ObjectId> },
    /// The drag-and-drop was ended by the user releasing the button.
    DnDDropped,
    /// A client asks to read the compositor's selection; the compositor
    /// writes to `fd` and closes it.
    SendSelection { mime_type: String, fd: i32 },
}

/// Notifications for the compositor about a drag that it started.
#[derive(Debug, PartialEq)]
pub enum ServerDndEvent {
    /// The action chosen with the target.
    Action(DndAction),
    /// The drag was dropped on a target that accepted it.
    Dropped,
    /// The drag was cancelled.
    Cancelled,
    /// The target wants the content as `mime_type`, written to `fd`; the
    /// compositor writes it and closes `fd`.
    Send { mime_type: String, fd: i32 },
    /// The target is done with the dropped content.
    Finished,
}

/// What an operation causes, in the order it happens.
#[derive(Debug, PartialEq)]
pub enum Effect {
    /// `wl_data_device.data_offer`: a new offer is introduced to a device.
    DataOffer { device: ObjectId, offer: ObjectId },
    /// `wl_data_offer.offer`: the offer holds this MIME type.
    Offer { offer: ObjectId, mime_type: String },
    /// `wl_data_device.selection`: the selection is this offer, or none.
    Selection { device: ObjectId, selected: Option<ObjectId> },
    /// `wl_data_source.send`: the source is asked to write this type to `fd`.
    Send { source: ObjectId, mime_type: String, fd: i32 },
    /// The file descriptor is closed on the server side.
    CloseFd { fd: i32 },
    /// A protocol error is posted on the object.
    Error { object: ObjectId, error: ProtocolError },
    /// `wl_data_offer.source_actions`: the actions that the source offers.
    SourceActions { offer: ObjectId, actions: DndAction },
    /// `wl_data_device.enter`: a drag enters a surface, at fixed-point
    /// coordinates (24.8), with its offer when the drag has a source.
    Enter {
        device: ObjectId,
        serial: u32,
        surface: ObjectId,
        x: i32,
        y: i32,
        with_offer: Option<ObjectId>,
    },
    /// `wl_data_device.leave`
    Leave { device: ObjectId },
    /// `wl_data_device.motion`, at fixed-point coordinates (24.8).
    Motion { device: ObjectId, time: u32, x: i32, y: i32 },
    /// `wl_data_device.drop`
    Drop { device: ObjectId },
    /// `wl_data_offer.action`: the action chosen for the drag.
    OfferAction { offer: ObjectId, action: DndAction },
    /// `wl_data_source.action`: the action chosen for the drag.
    SourceAction { source: ObjectId, action: DndAction },
    /// `wl_data_source.target`: the type that the target accepts, if any.
    Target { source: ObjectId, accepted: Option<String> },
    /// `wl_data_source.cancelled`
    Cancelled { source: ObjectId },
    /// `wl_data_source.dnd_drop_performed`
    DropPerformed { source: ObjectId },
    /// `wl_data_source.dnd_finished`
    DndFinished { source: ObjectId },
    /// A notification for the compositor.
    Notify(DataDeviceEvent),
    /// A notification for the compositor about a drag that it started.
    ServerDnd(ServerDndEvent),
}

/// The device is alive and belongs to the focused client.
pub open spec fn device_of(reg: Registry, focus: ClientId, d: ObjectId) -> bool {
    reg.live(d) && reg.owner(d) == focus
}

/// How many of the devices belong to the focused client.
pub open spec fn count_owned(reg: Registry, focus: ClientId, ds: Seq<ObjectId>) -> nat
    decreases ds.len(),
{
    if ds.len() == 0 {
        0
    } else {
        count_owned(reg, focus, ds.drop_last()) + if device_of(reg, focus, ds.last()) {
            1nat
        } else {
            0nat
        }
    }
}

/// Effects that advertise offer `o` with MIME types `ms` as the selection of device `d`.
pub open spec fn offer_block(d: ObjectId, o: ObjectId, ms: Seq<String>) -> Seq<Effect> {
    seq![Effect::DataOffer { device: d, offer: o }] + ms.map_values(
        |m: String| Effect::Offer { offer: o, mime_type: m },
    ) + seq![Effect::Selection { device: d, selected: Some(o) }]
}

/// Effects of advertising the selection to each device of the focused
/// client: a null selection when `mimes` is `None`, else a fresh offer per
/// device, numbered from `first`.
pub open spec fn advert(
    reg: Registry,
    focus: ClientId,
    ds: Seq<ObjectId>,
    first: nat,
    mimes: Option<Seq<String>>,
) -> Seq<Effect>
    decreases ds.len(),
{
    if ds.len() == 0 {
        seq![]
    } else {
        let prev = advert(reg, focus, ds.drop_last(), first, mimes);
        let d = ds.last();
        if device_of(reg, focus, d) {
            match mimes {
                None => prev.push(Effect::Selection { device: d, selected: None }),
                Some(ms) => prev + offer_block(
                    d,
                    (first + count_owned(reg, focus, ds.drop_last())) as ObjectId,
                    ms,
                ),
            }
        } else {
            prev
        }
    }
}

/// A client selection is still valid: its source is alive.
pub open spec fn source_valid(reg: Registry, src: ObjectId) -> bool {
    reg.live(src) && reg.data()[src as int] is Source
}

/// The selection after revalidation: a client selection whose source died is empty.
pub open spec fn revalidated(reg: Registry, sel: Selection) -> Selection {
    match sel {
        Selection::Client(src) => if source_valid(reg, src) {
            sel
        } else {
            Selection::Empty
        },
        _ => sel,
    }
}

/// MIME types that the selection offers; `None` for no selection.
pub open spec fn selection_mimes(reg: Registry, sel: Selection) -> Option<Seq<String>> {
    match sel {
        Selection::Empty => None,
        Selection::Client(src) => Some(reg.data()[src as int]->Source_0.meta.mime_types@),
        Selection::Compositor(meta) => Some(meta.mime_types@),
    }
}

/// One advertisement pass: from registry `reg` and selection `sel`, the pass
/// leaves registry `reg2` and selection `sel2` and causes `out`.
pub open spec fn advertised(
    reg: Registry,
    reg2: Registry,
    focus: Option<ClientId>,
    devices: Seq<ObjectId>,
    sel: Selection,
    sel2: Selection,
    out: Seq<Effect>,
) -> bool {
    match focus {
        None => {
            &&& out.len() == 0
            &&& sel2 == sel
            &&& reg2 == reg
        },
        Some(c) => {
            let n = reg.objects().len();
            &&& sel2 == revalidated(reg, sel)
            &&& out == advert(reg, c, devices, n, selection_mimes(reg, sel2))
            &&& reg2.objects().len() == n + (if sel2 is Empty {
                0
            } else {
                count_owned(reg, c, devices)
            })
            &&& new_offers(reg2, n, c, sel2)
            &&& sel2 !is Empty ==> offer_versions(reg, reg2, c, devices, n)
        },
    }
}

/// After an advertisement pass to a focused client, a client selection
/// is held by a live source: a selection whose source died was emptied.
pub proof fn lemma_selection_source_alive(
    reg: Registry,
    reg2: Registry,
    c: ClientId,
    devices: Seq<ObjectId>,
    sel: Selection,
    sel2: Selection,
    out: Seq<Effect>,
)
    requires
        advertised(reg, reg2, Some(c), devices, sel, sel2, out),
    ensures
        sel2 matches Selection::Client(x) ==> reg.live(x),
        sel matches Selection::Client(x) ==> (reg.live(x) || sel2 is Empty),
{
}

/// The user data of an offer created for selection `sel`.
pub open spec fn offer_reads(d: UserData, sel: Selection) -> bool {
    match sel {
        Selection::Client(src) => d == UserData::Offer(OfferKind::Selection(src)),
        Selection::Compositor(meta) => d matches UserData::Offer(OfferKind::Compositor(m))
            && m.same_as(&meta),
        Selection::Empty => false,
    }
}

/// Object `k` is a live offer of client `c` for selection `sel`.
pub open spec fn offer_at(reg: Registry, k: int, c: ClientId, sel: Selection) -> bool {
    &&& reg.alive_flags()[k]
    &&& reg.objects()[k].client == c
    &&& offer_reads(reg.data()[k], sel)
}

/// Objects from `from` on are live offers of client `c` for selection `sel`.
pub open spec fn new_offers(reg: Registry, from: nat, c: ClientId, sel: Selection) -> bool {
    forall|k: int| from <= k < reg.objects().len() ==> #[trigger] offer_at(reg, k, c, sel)
}

proof fn lemma_new_offers_push(
    before: Registry,
    after: Registry,
    from: nat,
    c: ClientId,
    sel: Selection,
    d: UserData,
)
    requires
        new_offers(before, from, c, sel),
        offer_reads(d, sel),
        after.objects() == before.objects().push(ObjectInfo { client: c, version: after.objects().last().version }),
        after.alive_flags() == before.alive_flags().push(true),
        after.data() == before.data().push(d),
        before.alive_flags().len() == before.objects().len(),
        before.data().len() == before.objects().len(),
    ensures
        new_offers(after, from, c, sel),
{
    assert forall|k: int| from <= k < after.objects().len() implies #[trigger] offer_at(after, k, c, sel) by {
        if k < before.objects().len() {
            assert(offer_at(before, k, c, sel));
        }
    }
    assert(new_offers(after, from, c, sel));
}

/// The offer made to the `j`-th device, when it is a device of client `c`,
/// has the version of that device.
pub open spec fn version_ok(reg: Registry, reg2: Registry, c: ClientId, ds: Seq<ObjectId>, first: nat, j: int) -> bool {
    device_of(reg, c, ds[j]) ==> reg2.objects()[(first + count_owned(reg, c, ds.subrange(0, j))) as int].version
        == reg.objects()[ds[j] as int].version
}

/// Each new offer, numbered from `first` in the order of the devices, has
/// the version of its device.
pub open spec fn offer_versions(reg: Registry, reg2: Registry, c: ClientId, ds: Seq<ObjectId>, first: nat) -> bool {
    forall|j: int| 0 <= j < ds.len() ==> #[trigger] version_ok(reg, reg2, c, ds, first, j)
}

/// Counting devices over a longer prefix counts at least as many, and one
/// more past a device of the client.
proof fn lemma_count_owned_grows(reg: Registry, c: ClientId, ds: Seq<ObjectId>, j: int, i: int)
    requires
        0 <= j < i <= ds.len(),
    ensures
        count_owned(reg, c, ds.subrange(0, j)) + (if device_of(reg, c, ds[j]) {
            1int
        } else {
            0
        }) <= count_owned(reg, c, ds.subrange(0, i)),
    decreases i - j,
{
    assert(ds.subrange(0, i).drop_last() =~= ds.subrange(0, i - 1));
    if j < i - 1 {
        lemma_count_owned_grows(reg, c, ds, j, i - 1);
    }
}

pub proof fn lemma_count_owned_le(reg: Registry, focus: ClientId, ds: Seq<ObjectId>)
    ensures
        count_owned(reg, focus, ds) <= ds.len(),
    decreases ds.len(),
{
    if ds.len() > 0 {
        lemma_count_owned_le(reg, focus, ds.drop_last());
    }
}

/// Appends the effects that advertise offer `o` to device `d`.
fn push_offer_block(out: &mut Vec<Effect>, d: ObjectId, o: ObjectId, ms: &Vec<String>)
    ensures
        final(out)@ == old(out)@ + offer_block(d, o, ms@),
{
    let ghost start = out@;
    out.push(Effect::DataOffer { device: d, offer: o });
    let mut j: usize = 0;
    while j < ms.len()
        invariant
            j <= ms@.len(),
            out@ == start + seq![Effect::DataOffer { device: d, offer: o }] + ms@.subrange(
                0,
                j as int,
            ).map_values(|m: String| Effect::Offer { offer: o, mime_type: m }),
        decreases ms@.len() - j,
    {
        out.push(Effect::Offer { offer: o, mime_type: ms[j].clone() });
        j += 1;
        proof {
            assert(ms@.subrange(0, j as int).map_values(
                |m: String| Effect::Offer { offer: o, mime_type: m },
            ) =~= ms@.subrange(0, j - 1).map_values(
                |m: String| Effect::Offer { offer: o, mime_type: m },
            ).push(Effect::Offer { offer: o, mime_type: ms@[j - 1] }));
        }
    }
    out.push(Effect::Selection { device: d, selected: Some(o) });
    proof {
        assert(ms@.subrange(0, ms@.len() as int) =~= ms@);
        assert(out@ =~= start + offer_block(d, o, ms@));
    }
}

/// Per-seat state of the data device.
#[derive(Debug)]
pub struct SeatData {
    known_devices: Vec<ObjectId>,
    selection: Selection,
    current_focus: Option<ClientId>,
}

impl SeatData {
    pub closed spec fn devices(&self) -> Seq<ObjectId> {
        self.known_devices@
    }

    pub closed spec fn selection_spec(&self) -> Selection {
        self.selection
    }

    pub closed spec fn focus(&self) -> Option<ClientId> {
        self.current_focus
    }

    pub fn new() -> (r: SeatData)
        ensures
            r.devices().len() == 0,
            r.selection_spec() == Selection::Empty,
            r.focus() is None,
    {
        SeatData { known_devices: Vec::new(), selection: Selection::Empty, current_focus: None }
    }

    /// Handles of the data devices bound on this seat.
    pub fn known_devices(&self) -> (r: &Vec<ObjectId>)
        ensures
            r@ == self.devices(),
    {
        &self.known_devices
    }

    pub fn selection(&self) -> (r: &Selection)
        ensures
            *r == self.selection_spec(),
    {
        &self.selection
    }

    pub fn current_focus(&self) -> (r: Option<ClientId>)
        ensures
            r == self.focus(),
    {
        self.current_focus
    }

    /// Room in the registry for one offer per known device.
    pub open spec fn room(&self, reg: &Registry) -> bool {
        reg.objects().len() + self.devices().len() <= u32::MAX
    }

    /// Revalidates the selection and advertises it to every data device of
    /// the focused client. Does nothing when no client has the focus.
    pub fn send_selection(&mut self, reg: &mut Registry) -> (out: Vec<Effect>)
        requires
            old(reg).wf(),
            old(self).room(old(reg)),
        ensures
            final(reg).wf(),
            final(reg).extends(old(reg)),
            final(self).devices() == old(self).devices(),
            final(self).focus() == old(self).focus(),
            advertised(
                *old(reg),
                *final(reg),
                old(self).focus(),
                old(self).devices(),
                old(self).selection_spec(),
                final(self).selection_spec(),
                out@,
            ),
    {
        let focus = match self.current_focus {
            Some(c) => c,
            None => {
                proof {
                    reg.lemma_extends_refl();
                }
                return Vec::new();
            },
        };
        let ghost reg0 = *reg;
        // first sanitize the selection: a source that died leaves it empty
        let cleanup = match &self.selection {
            Selection::Client(src) => !(reg.is_alive(*src) && matches!(reg.data_of(*src), UserData::Source(_))),
            _ => false,
        };
        if cleanup {
            self.selection = Selection::Empty;
        }
        let mimes: Option<Vec<String>> = match &self.selection {
            Selection::Empty => None,
            Selection::Client(src) => match reg.data_of(*src) {
                UserData::Source(s) => Some(copy_strings(&s.meta.mime_types)),
                _ => None,
            },
            Selection::Compositor(meta) => Some(copy_strings(&meta.mime_types)),
        };
        let ghost ms = selection_mimes(reg0, self.selection);
        let first = reg.len();
        let mut out: Vec<Effect> = Vec::new();
        let mut i: usize = 0;
        proof {
            reg.lemma_extends_refl();
            lemma_count_owned_le(reg0, focus, self.known_devices@);
        }
        while i < self.known_devices.len()
            invariant
                reg0.wf(),
                reg.wf(),
                reg.extends(&reg0),
                first == reg0.objects().len(),
                reg0.objects().len() + self.known_devices@.len() <= u32::MAX,
                count_owned(reg0, focus, self.known_devices@) <= self.known_devices@.len(),
                i <= self.known_devices@.len(),
                self.selection == revalidated(reg0, old(self).selection),
                self.known_devices@ == old(self).known_devices@,
                self.current_focus == Some(focus),
                ms == selection_mimes(reg0, self.selection),
                mimes is None <==> self.selection is Empty,
                mimes matches Some(v) ==> ms == Some(v@),
                out@ == advert(reg0, focus, self.known_devices@.subrange(0, i as int), first as nat, ms),
                reg.objects().len() == first + (if self.selection is Empty {
                    0
                } else {
                    count_owned(reg0, focus, self.known_devices@.subrange(0, i as int))
                }),
                new_offers(*reg, first as nat, focus, self.selection),
                self.selection !is Empty ==> forall|j: int| 0 <= j < i ==> #[trigger] version_ok(
                    reg0,
                    *reg,
                    focus,
                    self.known_devices@,
                    first as nat,
                    j,
                ),
            decreases self.known_devices@.len() - i,
        {
            let d = self.known_devices[i];
            let ghost pre = self.known_devices@.subrange(0, i as int);
            let ghost reg_before = *reg;
            proof {
                assert(self.known_devices@.subrange(0, i + 1).drop_last() =~= pre);
                lemma_count_owned_le(reg0, focus, pre);
            }
            if d < first && reg.is_alive(d) && reg.is_owned_by(d, focus) {
                proof {
                    assert(reg.alive_flags().subrange(0, first as int)[d as int] == reg.alive_flags()[d as int]);
                    assert(reg.objects().subrange(0, first as int)[d as int] == reg.objects()[d as int]);
                    assert(device_of(reg0, focus, d));
                }
                match &mimes {
                    None => {
                        out.push(Effect::Selection { device: d, selected: None });
                        assert(new_offers(*reg, first as nat, focus, self.selection));
                    },
                    Some(list) => {
                        let kind = match &self.selection {
                            Selection::Client(src) => OfferKind::Selection(*src),
                            Selection::Compositor(meta) => OfferKind::Compositor(meta.duplicate()),
                            // not reached: an empty selection has no MIME list
                            Selection::Empty => OfferKind::Selection(0),
                        };
                        proof {
                            reg.lemma_live_owner(d);
                        }
                        let version = reg.version(d);
                        let ghost kind_g = kind;
                        proof {
                            assert(offer_reads(UserData::Offer(kind_g), self.selection));
                        }
                        let o = reg.create(focus, version, UserData::Offer(kind));
                        push_offer_block(&mut out, d, o, list);
                        proof {
                            reg.lemma_wf();
                            Registry::lemma_extends_trans(&reg0, &reg_before, reg);
                            lemma_new_offers_push(reg_before, *reg, first as nat, focus, self.selection, UserData::Offer(kind_g));
                            assert(new_offers(*reg, first as nat, focus, self.selection));
                            let ds = self.known_devices@;
                            assert(ds.subrange(0, i as int) =~= pre);
                            assert forall|j: int| 0 <= j < i + 1 implies #[trigger] version_ok(
                                reg0,
                                *reg,
                                focus,
                                ds,
                                first as nat,
                                j,
                            ) by {
                                if j < i {
                                    assert(version_ok(reg0, reg_before, focus, ds, first as nat, j));
                                    if device_of(reg0, focus, ds[j]) {
                                        lemma_count_owned_grows(reg0, focus, ds, j, i as int);
                                        let k = (first + count_owned(reg0, focus, ds.subrange(0, j))) as int;
                                        assert(reg.objects().subrange(0, reg_before.objects().len() as int)[k]
                                            == reg.objects()[k]);
                                    }
                                } else {
                                    assert(ds[j] == d);
                                }
                            }
                        }
                    },
                }
            } else {
                proof {
                    if d < first {
                        assert(reg.alive_flags().subrange(0, first as int)[d as int] == reg.alive_flags()[d as int]);
                        assert(reg.objects().subrange(0, first as int)[d as int] == reg.objects()[d as int]);
                    }
                    assert(!device_of(reg0, focus, d));
                    assert(new_offers(*reg, first as nat, focus, self.selection));
                    assert(version_ok(reg0, *reg, focus, self.known_devices@, first as nat, i as int));
                }
            }
            i += 1;
        }
        proof {
            assert(self.known_devices@.subrange(0, self.known_devices@.len() as int) =~= self.known_devices@);
        }
        out
    }
}

impl SeatData {
    /// Sets the client whose data devices follow the selection, and
    /// advertises the selection to it.
    pub fn set_focus(&mut self, reg: &mut Registry, new_focus: Option<ClientId>) -> (out: Vec<Effect>)
        requires
            old(reg).wf(),
            old(self).room(old(reg)),
        ensures
            final(reg).wf(),
            final(reg).extends(old(reg)),
            final(self).devices() == old(self).devices(),
            final(self).focus() == new_focus,
            advertised(
                *old(reg),
                *final(reg),
                new_focus,
                old(self).devices(),
                old(self).selection_spec(),
                final(self).selection_spec(),
                out@,
            ),
    {
        self.current_focus = new_focus;
        self.send_selection(reg)
    }

    /// Replaces the selection, and advertises it to the focused client.
    pub fn set_selection(&mut self, reg: &mut Registry, new_selection: Selection) -> (out: Vec<
        Effect,
    >)
        requires
            old(reg).wf(),
            old(self).room(old(reg)),
        ensures
            final(reg).wf(),
            final(reg).extends(old(reg)),
            final(self).devices() == old(self).devices(),
            final(self).focus() == old(self).focus(),
            advertised(
                *old(reg),
                *final(reg),
                old(self).focus(),
                old(self).devices(),
                new_selection,
                final(self).selection_spec(),
                out@,
            ),
    {
        self.selection = new_selection;
        self.send_selection(reg)
    }

    /// `wl_data_device_manager.get_data_device`: a client binds a data device on this seat.
    pub fn get_data_device(&mut self, reg: &mut Registry, client: ClientId, version: u32) -> (id:
        ObjectId)
        requires
            old(reg).wf(),
            old(reg).client_live(client),
            old(reg).can_create(),
        ensures
            final(reg).wf(),
            final(reg).extends(old(reg)),
            id == old(reg).objects().len(),
            final(reg).objects() == old(reg).objects().push(ObjectInfo { client, version }),
            final(reg).live(id),
            final(reg).data()[id as int] == UserData::Plain,
            final(self).devices() == old(self).devices().push(id),
            final(self).focus() == old(self).focus(),
            final(self).selection_spec() == old(self).selection_spec(),
    {
        let id = reg.create(client, version, UserData::Plain);
        self.known_devices.push(id);
        id
    }

    /// `wl_data_device.release`: the device leaves the seat; devices that died are pruned too.
    pub fn release(&mut self, reg: &Registry, device: ObjectId)
        requires
            reg.wf(),
        ensures
            final(self).devices() == old(self).devices().filter(
                |d: ObjectId| reg.live(d) && d != device,
            ),
            final(self).focus() == old(self).focus(),
            final(self).selection_spec() == old(self).selection_spec(),
    {
        let mut kept: Vec<ObjectId> = Vec::new();
        let mut i: usize = 0;
        while i < self.known_devices.len()
            invariant
                i <= self.known_devices@.len(),
                kept@ == self.known_devices@.subrange(0, i as int).filter(
                    |d: ObjectId| reg.live(d) && d != device,
                ),
                reg.wf(),
            decreases self.known_devices@.len() - i,
        {
            let d = self.known_devices[i];
            let ghost p = |x: ObjectId| reg.live(x) && x != device;
            let ghost next = self.known_devices@.subrange(0, i + 1);
            proof {
                reveal(Seq::filter);
                assert(next.drop_last() =~= self.known_devices@.subrange(0, i as int));
                assert(next.last() == d);
                assert(next.filter(p) == if p(d) {
                    next.drop_last().filter(p).push(d)
                } else {
                    next.drop_last().filter(p)
                });
            }
            if reg.is_alive(d) && d != device {
                kept.push(d);
            }
            i += 1;
        }
        proof {
            assert(self.known_devices@.subrange(0, self.known_devices@.len() as int)
                =~= self.known_devices@);
        }
        self.known_devices = kept;
    }

    /// `wl_data_device.set_selection`: accepted only from a client that has
    /// the keyboard focus of this seat (`keyboard_focus`, `None` when no
    /// surface has it); others are ignored. The compositor is notified, the
    /// source can no longer change, and the selection is advertised.
    pub fn request_set_selection(
        &mut self,
        reg: &mut Registry,
        device: ObjectId,
        source: Option<ObjectId>,
        keyboard_focus: Option<ClientId>,
    ) -> (out: Vec<Effect>)
        requires
            old(reg).wf(),
            old(self).room(old(reg)),
        ensures
            final(reg).wf(),
            final(self).devices() == old(self).devices(),
            final(self).focus() == old(self).focus(),
            selection_allowed(*old(reg), device, keyboard_focus) ==> exists|mid: Registry| {
                &&& froze(*old(reg), mid, source)
                &&& mid.wf()
                &&& out@.len() >= 1
                &&& out@[0] == Effect::Notify(DataDeviceEvent::NewSelection(source))
                &&& #[trigger] advertised(
                    mid,
                    *final(reg),
                    old(self).focus(),
                    old(self).devices(),
                    selection_of(source),
                    final(self).selection_spec(),
                    out@.drop_first(),
                )
            },
            !selection_allowed(*old(reg), device, keyboard_focus) ==> {
                &&& out@.len() == 0
                &&& *final(reg) == *old(reg)
                &&& final(self).selection_spec() == old(self).selection_spec()
            },
    {
        let allowed = match keyboard_focus {
            Some(c) => reg.is_alive(device) && reg.is_owned_by(device, c),
            None => false,
        };
        if !allowed {
            return Vec::new();
        }
        let mut out: Vec<Effect> = Vec::new();
        out.push(Effect::Notify(DataDeviceEvent::NewSelection(source)));
        let new_selection = match source {
            Some(s) => {
                freeze_source(reg, s);
                Selection::Client(s)
            },
            None => Selection::Empty,
        };
        let ghost mid = *reg;
        proof {
            if source is None {
                assert(reg.data() =~= old(reg).data());
            }
        }
        let mut rest = self.set_selection(reg, new_selection);
        let ghost tail = rest@;
        out.append(&mut rest);
        proof {
            assert(out@.drop_first() =~= tail);
        }
        out
    }

    /// `wl_data_offer.receive`: the requester wants the content of the offer
    /// as `mime_type`, written to `fd`.
    ///
    /// For a client source, the source is asked to send when it is alive and
    /// still offers the type; the server closes `fd` either way. For the
    /// compositor's selection, the compositor is asked to send (and closes
    /// `fd`) when the type is offered; otherwise the server closes `fd`.
    pub fn offer_receive(reg: &Registry, offer: ObjectId, mime_type: String, fd: i32) -> (out: Vec<
        Effect,
    >)
        requires
            reg.wf(),
        ensures
            out@ == receive_effects(*reg, offer, mime_type, fd),
    {
        let mut out: Vec<Effect> = Vec::new();
        if !reg.is_alive(offer) {
            out.push(Effect::CloseFd { fd });
            return out;
        }
        let client_source = match reg.data_of(offer) {
            UserData::Offer(OfferKind::Selection(src)) => Some(*src),
            UserData::Offer(OfferKind::Dnd(src)) => Some(*src),
            _ => None,
        };
        if let Some(src) = client_source {
            let valid = reg.is_alive(src) && match reg.data_of(src) {
                UserData::Source(s) => mime_listed(&s.meta.mime_types, &mime_type),
                _ => false,
            };
            if valid {
                out.push(Effect::Send { source: src, mime_type, fd });
            }
            out.push(Effect::CloseFd { fd });
            return out;
        }
        match reg.data_of(offer) {
            UserData::Offer(OfferKind::Compositor(meta)) => {
                if mime_listed(&meta.mime_types, &mime_type) {
                    out.push(Effect::Notify(DataDeviceEvent::SendSelection { mime_type, fd }));
                } else {
                    out.push(Effect::CloseFd { fd });
                }
            },
            UserData::Offer(OfferKind::ServerDnd(meta)) => {
                if mime_listed(&meta.mime_types, &mime_type) {
                    out.push(Effect::ServerDnd(ServerDndEvent::Send { mime_type, fd }));
                } else {
                    out.push(Effect::CloseFd { fd });
                }
            },
            _ => {
                out.push(Effect::CloseFd { fd });
            },
        }
        out
    }
}

/// The selection that a client source makes; none when no source is given.
pub open spec fn selection_of(source: Option<ObjectId>) -> Selection {
    match source {
        Some(s) => Selection::Client(s),
        None => Selection::Empty,
    }
}

/// The requesting device is alive and its client has the keyboard focus.
pub open spec fn selection_allowed(reg: Registry, device: ObjectId, keyboard_focus: Option<
    ClientId,
>) -> bool {
    match keyboard_focus {
        Some(c) => reg.live(device) && reg.owner(device) == c,
        None => false,
    }
}

/// The source state with its frozen flag set.
pub open spec fn frozen_state(s: SourceState) -> SourceState {
    SourceState { meta: s.meta, frozen: true }
}

/// `b` is `a` with data source `s` frozen; `b` is `a` when `s` is no data source.
pub open spec fn froze(a: Registry, b: Registry, s: Option<ObjectId>) -> bool {
    &&& b.objects() == a.objects()
    &&& b.alive_flags() == a.alive_flags()
    &&& b.roles() == a.roles()
    &&& b.clients() == a.clients()
    &&& b.data() == match s {
        Some(id) => if a.has_object(id) && a.data()[id as int] is Source {
            a.data().update(id as int, UserData::Source(frozen_state(a.data()[id as int]->Source_0)))
        } else {
            a.data()
        },
        None => a.data(),
    }
}

/// Marks a data source as used: its actions can no longer change.
pub fn freeze_source(reg: &mut Registry, src: ObjectId)
    requires
        old(reg).wf(),
    ensures
        final(reg).wf(),
        froze(*old(reg), *final(reg), Some(src)),
{
    proof {
        reg.lemma_wf();
    }
    if src < reg.len() {
        match reg.take_data(src) {
            UserData::Source(st) => {
                let ghost st0 = st;
                reg.set_data(src, UserData::Source(SourceState { meta: st.meta, frozen: true }));
                proof {
                    assert(reg.data() =~= old(reg).data().update(
                        src as int,
                        UserData::Source(frozen_state(st0)),
                    ));
                }
            },
            other => {
                reg.set_data(src, other);
                proof {
                    assert(reg.data() =~= old(reg).data());
                }
            },
        }
    }
}

/// The source is alive and offers MIME type `m`.
pub open spec fn source_offers(reg: Registry, src: ObjectId, m: Seq<char>) -> bool {
    reg.live(src) && match reg.data()[src as int] {
        UserData::Source(s) => has_mime(s.meta.mime_types@, m),
        _ => false,
    }
}

/// A read from a client source: the source sends when it is alive and
/// offers the type; the server closes `fd` either way.
pub open spec fn client_receive(reg: Registry, src: ObjectId, mime_type: String, fd: i32) -> Seq<Effect> {
    if source_offers(reg, src, mime_type@) {
        seq![Effect::Send { source: src, mime_type, fd }, Effect::CloseFd { fd }]
    } else {
        seq![Effect::CloseFd { fd }]
    }
}

/// What `wl_data_offer.receive` causes.
pub open spec fn receive_effects(reg: Registry, offer: ObjectId, mime_type: String, fd: i32) -> Seq<
    Effect,
> {
    if !reg.live(offer) {
        seq![Effect::CloseFd { fd }]
    } else {
        match reg.data()[offer as int] {
            UserData::Offer(OfferKind::Selection(src)) => client_receive(reg, src, mime_type, fd),
            UserData::Offer(OfferKind::Dnd(src)) => client_receive(reg, src, mime_type, fd),
            UserData::Offer(OfferKind::Compositor(meta)) => if has_mime(meta.mime_types@, mime_type@) {
                seq![Effect::Notify(DataDeviceEvent::SendSelection { mime_type, fd })]
            } else {
                seq![Effect::CloseFd { fd }]
            },
            UserData::Offer(OfferKind::ServerDnd(meta)) => if has_mime(meta.mime_types@, mime_type@) {
                seq![Effect::ServerDnd(ServerDndEvent::Send { mime_type, fd })]
            } else {
                seq![Effect::CloseFd { fd }]
            },
            _ => seq![Effect::CloseFd { fd }],
        }
    }
}

/// `b` is `a` where only the user data of object `id` may differ.
pub open spec fn only_data_changed(a: Registry, b: Registry, id: ObjectId) -> bool {
    &&& b.objects() == a.objects()
    &&& b.alive_flags() == a.alive_flags()
    &&& b.roles() == a.roles()
    &&& b.clients() == a.clients()
    &&& b.data().len() == a.data().len()
    &&& forall|k: int| 0 <= k < a.data().len() && k != id ==> #[trigger] b.data()[k] == a.data()[k]
}

/// `wl_data_device_manager.create_data_source`: a new source, with no MIME
/// type and no action yet.
pub fn create_data_source(reg: &mut Registry, client: ClientId, version: u32) -> (id: ObjectId)
    requires
        old(reg).wf(),
        old(reg).client_live(client),
        old(reg).can_create(),
    ensures
        final(reg).wf(),
        final(reg).extends(old(reg)),
        id == old(reg).objects().len(),
        final(reg).objects() == old(reg).objects().push(ObjectInfo { client, version }),
        final(reg).live(id),
        final(reg).data()[id as int] matches UserData::Source(s) && s.meta.mime_types@.len() == 0
            && s.meta.dnd_action == DndAction::none() && !s.frozen,
{
    let meta = SourceMetadata { mime_types: Vec::new(), dnd_action: DndAction::empty() };
    reg.create(client, version, UserData::Source(SourceState { meta, frozen: false }))
}

/// `wl_data_source.offer`: the source adds a MIME type to its list. Ignored
/// when the source was already used, or lists the type already.
pub fn source_offer(reg: &mut Registry, src: ObjectId, mime_type: String)
    requires
        old(reg).wf(),
    ensures
        final(reg).wf(),
        only_data_changed(*old(reg), *final(reg), src),
        old(reg).has_object(src) ==> match old(reg).data()[src as int] {
            UserData::Source(s) => if !s.frozen && !has_mime(s.meta.mime_types@, mime_type@) {
                final(reg).data()[src as int] matches UserData::Source(t)
                    && t.meta.mime_types@ == s.meta.mime_types@.push(mime_type)
                    && t.meta.dnd_action == s.meta.dnd_action && t.frozen == s.frozen
            } else {
                final(reg).data()[src as int] == old(reg).data()[src as int]
            },
            _ => final(reg).data()[src as int] == old(reg).data()[src as int],
        },
{
    proof {
        reg.lemma_wf();
    }
    if src >= reg.len() {
        return;
    }
    match reg.take_data(src) {
        UserData::Source(st) => {
            let mut st = st;
            if !st.frozen && !mime_listed(&st.meta.mime_types, &mime_type) {
                st.meta.mime_types.push(mime_type);
            }
            reg.set_data(src, UserData::Source(st));
        },
        other => {
            reg.set_data(src, other);
        },
    }
}

/// `wl_data_source.set_actions`: the source sets its drag-and-drop actions.
///
/// A source bound below version 3 cannot make this request, and a mask with
/// bits beyond copy, move and ask is invalid: both post `InvalidActionMask`.
/// An empty mask changes nothing. A source already used posts `InvalidSource`.
pub fn source_set_actions(reg: &mut Registry, src: ObjectId, mask: u32) -> (out: Vec<Effect>)
    requires
        old(reg).wf(),
    ensures
        final(reg).wf(),
        only_data_changed(*old(reg), *final(reg), src),
        out@ == set_actions_effects(*old(reg), src, mask),
        set_actions_applies(*old(reg), src, mask) ==> (old(reg).data()[src as int] matches UserData::Source(s)
            && final(reg).data()[src as int] matches UserData::Source(t)
            && t.meta.mime_types@ == s.meta.mime_types@ && t.frozen == s.frozen
            && t.meta.dnd_action == DndAction::from_bits_spec(mask)),
        !set_actions_applies(*old(reg), src, mask) ==> *final(reg) == *old(reg),
{
    proof {
        reg.lemma_wf();
    }
    let mut out: Vec<Effect> = Vec::new();
    if src >= reg.len() {
        return out;
    }
    let frozen = match reg.data_of(src) {
        UserData::Source(st) => st.frozen,
        _ => {
            return out;
        },
    };
    if reg.version(src) < ACTIONS_SINCE_VERSION || mask >= 8 {
        out.push(Effect::Error { object: src, error: ProtocolError::InvalidActionMask });
        return out;
    }
    if mask == 0 {
        return out;
    }
    if frozen {
        out.push(Effect::Error { object: src, error: ProtocolError::InvalidSource });
        return out;
    }
    match reg.take_data(src) {
        UserData::Source(st) => {
            let mut st = st;
            st.meta.dnd_action = DndAction::from_bits(mask);
            reg.set_data(src, UserData::Source(st));
        },
        other => {
            reg.set_data(src, other);
        },
    }
    out
}

/// The request changes the actions of the source.
pub open spec fn set_actions_applies(reg: Registry, src: ObjectId, mask: u32) -> bool {
    &&& reg.has_object(src)
    &&& reg.data()[src as int] matches UserData::Source(s) && !s.frozen
    &&& reg.objects()[src as int].version >= ACTIONS_SINCE_VERSION
    &&& 0 < mask < 8
}

/// What `wl_data_source.set_actions` causes.
pub open spec fn set_actions_effects(reg: Registry, src: ObjectId, mask: u32) -> Seq<Effect> {
    if !reg.has_object(src) || !(reg.data()[src as int] is Source) {
        seq![]
    } else if reg.objects()[src as int].version < ACTIONS_SINCE_VERSION || mask >= 8 {
        seq![Effect::Error { object: src, error: ProtocolError::InvalidActionMask }]
    } else if mask == 0 {
        seq![]
    } else if reg.data()[src as int]->Source_0.frozen {
        seq![Effect::Error { object: src, error: ProtocolError::InvalidSource }]
    } else {
        seq![]
    }
}

/// The metadata of a live data source; `None` when the source is dead or unknown.
pub fn with_source_metadata(reg: &Registry, src: ObjectId) -> (r: Option<SourceMetadata>)
    requires
        reg.wf(),
    ensures
        match r {
            Some(m) => {
                &&& reg.live(src)
                &&& reg.data()[src as int] matches UserData::Source(s)
                &&& m.same_as(&s.meta)
            },
            None => !(reg.live(src) && reg.data()[src as int] is Source),
        },
{
    if !reg.is_alive(src) {
        return None;
    }
    match reg.data_of(src) {
        UserData::Source(s) => Some(s.meta.duplicate()),
        _ => None,
    }
}

/// Sets the data device focus of a seat to a client (or none), advertising
/// the selection to it.
pub fn set_data_device_focus(seat: &mut SeatData, reg: &mut Registry, client: Option<ClientId>) -> (out: Vec<Effect>)
    requires
        old(reg).wf(),
        old(seat).room(old(reg)),
    ensures
        final(reg).wf(),
        final(reg).extends(old(reg)),
        final(seat).devices() == old(seat).devices(),
        final(seat).focus() == client,
        advertised(
            *old(reg),
            *final(reg),
            client,
            old(seat).devices(),
            old(seat).selection_spec(),
            final(seat).selection_spec(),
            out@,
        ),
{
    seat.set_focus(reg, client)
}

/// Sets a selection provided by the compositor, with the given MIME types.
/// Clients that read it cause [`DataDeviceEvent::SendSelection`].
pub fn set_data_device_selection(seat: &mut SeatData, reg: &mut Registry, mime_types: Vec<String>) -> (out: Vec<Effect>)
    requires
        old(reg).wf(),
        old(seat).room(old(reg)),
    ensures
        final(reg).wf(),
        final(reg).extends(old(reg)),
        final(seat).devices() == old(seat).devices(),
        final(seat).focus() == old(seat).focus(),
        final(seat).selection_spec() matches Selection::Compositor(m) && m.mime_types@ == mime_types@
            && m.dnd_action == DndAction::none(),
        advertised(
            *old(reg),
            *final(reg),
            old(seat).focus(),
            old(seat).devices(),
            final(seat).selection_spec(),
            final(seat).selection_spec(),
            out@,
        ),
{
    let meta = SourceMetadata { mime_types, dnd_action: DndAction::empty() };
    seat.set_selection(reg, Selection::Compositor(meta))
}

} // verus!
