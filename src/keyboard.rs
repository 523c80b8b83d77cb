//! The keyboard of a seat: keymap, modifier state, pressed keys, focus and
//! grabs. Events for clients and calls of the focus hook are queued as
//! [`KeyboardEvent`]s, which the embedder takes with
//! [`KeyboardHandle::take_events`].

use crate::registry::{ClientId, ObjectId, Registry};
use vstd::prelude::*;

verus! {

/// Declares `std::io::Error`, which [`Error::IoError`] carries; nothing here
/// looks inside it.
#[verifier::external_type_specification]
#[verifier::external_body]
pub struct ExIoError(std::io::Error);

/// Offset between evdev key codes and the xkb key code system.
pub const EVDEV_OFFSET: u32 = 8;

/// Lowest keyboard version that receives the repeat information.
pub const REPEAT_INFO_SINCE_VERSION: u32 = 4;

/// State of a key.
#[derive(Clone, Copy, Debug, PartialEq, Eq, Structural)]
pub enum KeyState {
    Released,
    Pressed,
}

/// Represents the current state of the keyboard modifiers.
///
/// Each field is `true` if this modifier is active. For some modifiers this
/// means that the key is pressed, others are toggled (like caps lock).
#[derive(Copy, Clone, Debug, Default, PartialEq, Eq, Hash, Structural)]
pub struct ModifiersState {
    /// The "control" key
    pub ctrl: bool,
    /// The "alt" key
    pub alt: bool,
    /// The "shift" key
    pub shift: bool,
    /// The "Caps lock" key
    pub caps_lock: bool,
    /// The "logo" key, also known as the "windows" key on most keyboards
    pub logo: bool,
    /// The "Num lock" key
    pub num_lock: bool,
}

impl ModifiersState {
    pub open spec fn none() -> ModifiersState {
        ModifiersState {
            ctrl: false,
            alt: false,
            shift: false,
            caps_lock: false,
            logo: false,
            num_lock: false,
        }
    }

    /// No modifier active.
    pub fn new() -> (r: ModifiersState)
        ensures
            r == Self::none(),
    {
        ModifiersState {
            ctrl: false,
            alt: false,
            shift: false,
            caps_lock: false,
            logo: false,
            num_lock: false,
        }
    }
}

/// Configuration of the keymap, as RMLVO names.
///
/// For the fields that are empty (or `None`), the keymap library uses the
/// environment variables `XKB_DEFAULT_RULES`, `XKB_DEFAULT_MODEL`,
/// `XKB_DEFAULT_LAYOUT`, `XKB_DEFAULT_VARIANT` and `XKB_DEFAULT_OPTIONS`.
#[derive(Default, Clone, Debug)]
pub struct XkbConfig<'a> {
    /// The rules file to use, which says how to read the other fields.
    pub rules: &'a str,
    /// The keyboard model by which to interpret keycodes and LEDs.
    pub model: &'a str,
    /// A comma separated list of layouts (languages) to include in the keymap.
    pub layout: &'a str,
    /// A comma separated list of variants, one per layout.
    pub variant: &'a str,
    /// A comma separated list of options, such as which key is the Compose key.
    pub options: Option<String>,
}

/// Errors that can be encountered when creating a keyboard handler.
#[derive(Debug)]
pub enum Error {
    /// The keymap library could not load the specified keymap.
    BadKeymap,
    /// The keymap could not be written to a file to share it with clients.
    IoError(std::io::Error),
}

/// Result of the key input filter (see [`KeyboardHandle::input`]).
#[derive(Debug)]
pub enum FilterResult<T> {
    /// Forward the key to the client.
    Forward,
    /// Do not forward, and return the value.
    Intercept(T),
}

/// The pressed keys after a key event: a press is appended, a release removes
/// the first occurrence of the key.
pub open spec fn keys_after(keys: Seq<u32>, keycode: u32, state: KeyState) -> Seq<u32> {
    match state {
        KeyState::Pressed => keys.push(keycode),
        KeyState::Released => remove_first(keys, keycode),
    }
}

/// `keys` without its first occurrence of `k`; `keys` itself when `k` is absent.
pub open spec fn remove_first(keys: Seq<u32>, k: u32) -> Seq<u32>
    decreases keys.len(),
{
    if keys.len() == 0 {
        keys
    } else if keys[0] == k {
        keys.drop_first()
    } else {
        seq![keys[0]] + remove_first(keys.drop_first(), k)
    }
}

proof fn lemma_remove_first_pushed(keys: Seq<u32>, k: u32)
    requires
        !keys.contains(k),
    ensures
        remove_first(keys.push(k), k) == keys,
    decreases keys.len(),
{
    if keys.len() == 0 {
        assert(keys.push(k).drop_first() =~= keys);
    } else {
        assert(keys.push(k)[0] == keys[0]);
        assert(keys.push(k).drop_first() =~= keys.drop_first().push(k));
        assert(!keys.drop_first().contains(k)) by {
            if keys.drop_first().contains(k) {
                let j = choose|j: int| 0 <= j < keys.drop_first().len() && keys.drop_first()[j] == k;
                assert(keys[j + 1] == k);
            }
        }
        lemma_remove_first_pushed(keys.drop_first(), k);
        assert(seq![keys[0]] + keys.drop_first() =~= keys);
    }
}

/// Pressing then releasing a key that is not pressed leaves the pressed
/// keys as they were.
pub proof fn lemma_press_release(keys: Seq<u32>, k: u32)
    requires
        !keys.contains(k),
    ensures
        keys_after(keys_after(keys, k, KeyState::Pressed), k, KeyState::Released) == keys,
{
    lemma_remove_first_pushed(keys, k);
}

/// Updates the list of pressed keys for a key event.
pub fn track_key(keys: &mut Vec<u32>, keycode: u32, state: KeyState)
    ensures
        final(keys)@ == keys_after(old(keys)@, keycode, state),
{
    match state {
        KeyState::Pressed => {
            keys.push(keycode);
        },
        KeyState::Released => {
            let mut i: usize = 0;
            proof {
                assert(keys@.subrange(0, keys@.len() as int) =~= keys@);
                assert(keys@.subrange(0, 0) + keys@ =~= keys@);
            }
            while i < keys.len()
                invariant
                    state == KeyState::Released,
                    i <= keys@.len(),
                    keys@ == old(keys)@,
                    forall|j: int| 0 <= j < i ==> keys@[j] != keycode,
                    remove_first(keys@, keycode) == keys@.subrange(0, i as int) + remove_first(
                        keys@.subrange(i as int, keys@.len() as int),
                        keycode,
                    ),
                decreases keys@.len() - i,
            {
                if keys[i] == keycode {
                    let ghost before = keys@;
                    keys.remove(i);
                    proof {
                        let tail = before.subrange(i as int, before.len() as int);
                        assert(tail[0] == keycode);
                        assert(remove_first(tail, keycode) == tail.drop_first());
                        assert(tail.drop_first() =~= before.subrange(i + 1, before.len() as int));
                        assert(keys@ =~= before.subrange(0, i as int) + before.subrange(
                            i + 1,
                            before.len() as int,
                        ));
                        assert(remove_first(before, keycode) == before.subrange(0, i as int)
                            + remove_first(tail, keycode));
                        assert(keys@ == remove_first(before, keycode));
                    }
                    return;
                }
                proof {
                    let tail = keys@.subrange(i as int, keys@.len() as int);
                    assert(tail[0] == keys@[i as int]);
                    assert(tail.drop_first() =~= keys@.subrange(i + 1, keys@.len() as int));
                    assert(keys@.subrange(0, i as int) + seq![keys@[i as int]] =~= keys@.subrange(
                        0,
                        i + 1,
                    ));
                    assert(keys@.subrange(0, i as int) + (seq![keys@[i as int]] + remove_first(
                        tail.drop_first(),
                        keycode,
                    )) =~= keys@.subrange(0, i + 1) + remove_first(tail.drop_first(), keycode));
                }
                i += 1;
            }
            proof {
                assert(keys@.subrange(i as int, keys@.len() as int).len() == 0);
                assert(keys@.subrange(0, i as int) =~= keys@);
                assert(keys@.subrange(0, i as int) + keys@.subrange(i as int, keys@.len() as int)
                    =~= keys@);
            }
        },
    }
}

/// The four little-endian bytes of a key code.
pub open spec fn le_bytes(k: u32) -> Seq<u8> {
    seq![(k & 0xff) as u8, ((k >> 8) & 0xff) as u8, ((k >> 16) & 0xff) as u8, (k >> 24) as u8]
}

/// The key code read from four little-endian bytes.
pub open spec fn le_u32(b0: u8, b1: u8, b2: u8, b3: u8) -> u32 {
    (b0 as u32) | ((b1 as u32) << 8) | ((b2 as u32) << 16) | ((b3 as u32) << 24)
}

/// The pressed keys as a byte blob: four little-endian bytes per key, in
/// the order the keys were pressed.
pub open spec fn keys_blob(keys: Seq<u32>) -> Seq<u8>
    decreases keys.len(),
{
    if keys.len() == 0 {
        seq![]
    } else {
        keys_blob(keys.drop_last()) + le_bytes(keys.last())
    }
}

/// The key codes read back from a blob of four bytes each.
pub open spec fn blob_keys(blob: Seq<u8>) -> Seq<u32> {
    Seq::new(
        blob.len() / 4,
        |i: int| le_u32(blob[4 * i], blob[4 * i + 1], blob[4 * i + 2], blob[4 * i + 3]),
    )
}

proof fn lemma_le_round_trip(k: u32)
    ensures
        le_u32(le_bytes(k)[0], le_bytes(k)[1], le_bytes(k)[2], le_bytes(k)[3]) == k,
{
    let b0 = (k & 0xff) as u8;
    let b1 = ((k >> 8) & 0xff) as u8;
    let b2 = ((k >> 16) & 0xff) as u8;
    let b3 = (k >> 24) as u8;
    assert((b0 as u32) | ((b1 as u32) << 8) | ((b2 as u32) << 16) | ((b3 as u32) << 24) == k)
        by (bit_vector)
        requires
            b0 == (k & 0xff) as u8,
            b1 == ((k >> 8) & 0xff) as u8,
            b2 == ((k >> 16) & 0xff) as u8,
            b3 == (k >> 24) as u8,
    ;
}

proof fn lemma_blob_len(keys: Seq<u32>)
    ensures
        keys_blob(keys).len() == 4 * keys.len(),
    decreases keys.len(),
{
    if keys.len() > 0 {
        lemma_blob_len(keys.drop_last());
    }
}

proof fn lemma_blob_bytes(keys: Seq<u32>, i: int, j: int)
    requires
        0 <= i < keys.len(),
        0 <= j < 4,
    ensures
        keys_blob(keys).len() == 4 * keys.len(),
        keys_blob(keys)[4 * i + j] == le_bytes(keys[i])[j],
    decreases keys.len(),
{
    lemma_blob_len(keys);
    lemma_blob_len(keys.drop_last());
    if i < keys.len() - 1 {
        lemma_blob_bytes(keys.drop_last(), i, j);
    }
}

/// The blob of the pressed keys has four bytes per key and reads back as
/// the same keys, in the same order.
pub proof fn lemma_keys_blob_round_trip(keys: Seq<u32>)
    ensures
        keys_blob(keys).len() == 4 * keys.len(),
        blob_keys(keys_blob(keys)) == keys,
{
    lemma_blob_len(keys);
    let blob = keys_blob(keys);
    assert forall|i: int| 0 <= i < keys.len() implies #[trigger] blob_keys(blob)[i] == keys[i] by {
        lemma_blob_bytes(keys, i, 0);
        lemma_blob_bytes(keys, i, 1);
        lemma_blob_bytes(keys, i, 2);
        lemma_blob_bytes(keys, i, 3);
        lemma_le_round_trip(keys[i]);
    }
    assert(blob_keys(blob) =~= keys);
}

/// Serializes the pressed keys for the `enter` event.
pub fn serialize_pressed_keys(keys: &Vec<u32>) -> (r: Vec<u8>)
    requires
        4 * keys@.len() <= usize::MAX,
    ensures
        r@ == keys_blob(keys@),
{
    let mut r: Vec<u8> = Vec::new();
    let mut i: usize = 0;
    while i < keys.len()
        invariant
            i <= keys@.len(),
            r@ == keys_blob(keys@.subrange(0, i as int)),
        decreases keys@.len() - i,
    {
        let k = keys[i];
        r.push((k & 0xff) as u8);
        r.push(((k >> 8) & 0xff) as u8);
        r.push(((k >> 16) & 0xff) as u8);
        r.push((k >> 24) as u8);
        proof {
            assert(keys@.subrange(0, i + 1).drop_last() =~= keys@.subrange(0, i as int));
            assert(r@ =~= keys_blob(keys@.subrange(0, i as int)) + le_bytes(k));
        }
        i += 1;
    }
    proof {
        assert(keys@.subrange(0, keys@.len() as int) =~= keys@);
    }
    r
}

/// Data about the event that started a grab.
#[derive(Clone, Copy, Debug, PartialEq, Eq, Structural)]
pub struct GrabStartData {
    /// The focused surface, if any, at the start of the grab.
    pub focus: Option<ObjectId>,
}

/// What the keyboard causes: events for keyboard objects of clients, and
/// calls of the focus hook.
#[derive(Debug, PartialEq)]
pub enum KeyboardEvent {
    /// `wl_keyboard.repeat_info`
    RepeatInfo { keyboard: ObjectId, rate: i32, delay: i32 },
    /// `wl_keyboard.enter`, with the pressed keys as four bytes each.
    Enter { keyboard: ObjectId, serial: u32, surface: ObjectId, keys: Vec<u8> },
    /// `wl_keyboard.leave`
    Leave { keyboard: ObjectId, serial: u32, surface: ObjectId },
    /// `wl_keyboard.modifiers`: depressed, latched, locked, group.
    Modifiers { keyboard: ObjectId, serial: u32, mods: (u32, u32, u32, u32) },
    /// `wl_keyboard.key`
    Key { keyboard: ObjectId, serial: u32, time: u32, key: u32, state: KeyState },
    /// The focus hook is called with the new focus.
    FocusChanged(Option<ObjectId>),
}

/// The keyboards that reach surface `s`: live, and of its client.
pub open spec fn targets(reg: Registry, kbds: Seq<ObjectId>, s: Option<ObjectId>) -> Seq<ObjectId> {
    match s {
        None => Seq::empty(),
        Some(surface) => kbds.filter(|k: ObjectId| reaches(reg, k, surface)),
    }
}

/// Keyboard `k` is live and belongs to the client of surface `s`.
pub open spec fn reaches(reg: Registry, k: ObjectId, s: ObjectId) -> bool {
    reg.live(k) && reg.has_object(s) && reg.owner(k) == reg.owner(s)
}

/// `key` then, if the modifiers changed, `modifiers`, to each keyboard in turn.
pub open spec fn key_events(
    ks: Seq<ObjectId>,
    serial: u32,
    time: u32,
    key: u32,
    state: KeyState,
    mods: Option<(u32, u32, u32, u32)>,
) -> Seq<KeyboardEvent>
    decreases ks.len(),
{
    if ks.len() == 0 {
        seq![]
    } else {
        let k = ks.last();
        let prev = key_events(ks.drop_last(), serial, time, key, state, mods).push(
            KeyboardEvent::Key { keyboard: k, serial, time, key, state },
        );
        match mods {
            Some(m) => prev.push(KeyboardEvent::Modifiers { keyboard: k, serial, mods: m }),
            None => prev,
        }
    }
}

/// `leave` to each keyboard in turn.
pub open spec fn leave_events(ks: Seq<ObjectId>, serial: u32, s: ObjectId) -> Seq<KeyboardEvent>
    decreases ks.len(),
{
    if ks.len() == 0 {
        seq![]
    } else {
        leave_events(ks.drop_last(), serial, s).push(
            KeyboardEvent::Leave { keyboard: ks.last(), serial, surface: s },
        )
    }
}

/// Events `2 * i` and `2 * i + 1` are the `enter` and `modifiers` of keyboard `k`.
pub open spec fn enter_at(
    evs: Seq<KeyboardEvent>,
    i: int,
    k: ObjectId,
    serial: u32,
    s: ObjectId,
    blob: Seq<u8>,
    m: (u32, u32, u32, u32),
) -> bool {
    &&& evs[2 * i] matches KeyboardEvent::Enter { keyboard, serial: sr, surface, keys }
    &&& keyboard == k
    &&& sr == serial
    &&& surface == s
    &&& keys@ == blob
    &&& evs[2 * i + 1] == KeyboardEvent::Modifiers { keyboard: k, serial, mods: m }
}

/// `enter` then `modifiers`, to each keyboard in turn.
pub open spec fn enter_events(
    evs: Seq<KeyboardEvent>,
    ks: Seq<ObjectId>,
    serial: u32,
    s: ObjectId,
    blob: Seq<u8>,
    m: (u32, u32, u32, u32),
) -> bool {
    &&& evs.len() == 2 * ks.len()
    &&& forall|i: int| 0 <= i < ks.len() ==> #[trigger] enter_at(evs, i, ks[i], serial, s, blob, m)
}

/// The events of a focus change from `old` to `new`: `leave` to the
/// keyboards of the old focus, `enter` and `modifiers` to those of the new
/// one, then the focus hook.
pub open spec fn focus_change_events(
    evs: Seq<KeyboardEvent>,
    reg: Registry,
    kbds: Seq<ObjectId>,
    old: Option<ObjectId>,
    new: Option<ObjectId>,
    serial: u32,
    blob: Seq<u8>,
    m: (u32, u32, u32, u32),
) -> bool {
    let lv = match old {
        Some(s) => leave_events(targets(reg, kbds, old), serial, s),
        None => seq![],
    };
    let n = evs.len() as int;
    &&& n >= lv.len() + 1
    &&& evs.subrange(0, lv.len() as int) == lv
    &&& match new {
        Some(s) => enter_events(evs.subrange(lv.len() as int, n - 1), targets(reg, kbds, new), serial, s, blob, m),
        None => n == lv.len() + 1,
    }
    &&& evs[n - 1] == KeyboardEvent::FocusChanged(new)
}

/// State of a grab slot.
pub enum GrabStatus<G> {
    Inactive,
    /// A grab of this serial, with its start data as read when it was installed.
    Active(u32, G, GrabStartData),
    /// The grab is being run; the slot is not to be entered again.
    Borrowed,
}

/// The keyboard state as a grab sees it: it sends events directly to the
/// focused clients.
pub struct KeyboardInnerHandle<G> {
    known_kbds: Vec<ObjectId>,
    focus: Option<ObjectId>,
    pending_focus: Option<ObjectId>,
    pressed_keys: Vec<u32>,
    mods_state: ModifiersState,
    mods_serial: (u32, u32, u32, u32),
    repeat_rate: i32,
    repeat_delay: i32,
    grab: GrabStatus<G>,
    grab_changed: bool,
    events: Vec<KeyboardEvent>,
}

/// A keyboard grab: while installed, it receives key input and focus
/// requests in place of the default behavior, which forwards them to the
/// inner handle.
pub trait KeyboardGrab: Sized {
    /// An input was reported.
    fn input<H>(
        &mut self,
        handle: &mut KeyboardInnerHandle<H>,
        reg: &Registry,
        keycode: u32,
        key_state: KeyState,
        modifiers: Option<(u32, u32, u32, u32)>,
        serial: u32,
        time: u32,
    )
        requires
            reg.wf(),
        ensures
            final(handle).pressed() == old(handle).pressed(),
            final(handle).pending() == old(handle).pending(),
            final(handle).modifiers() == old(handle).modifiers(),
    ;

    /// A focus change was requested.
    fn set_focus<H>(
        &mut self,
        handle: &mut KeyboardInnerHandle<H>,
        reg: &Registry,
        focus: Option<ObjectId>,
        serial: u32,
    )
        requires
            reg.wf(),
            old(handle).keys_fit(),
        ensures
            final(handle).pressed() == old(handle).pressed(),
            final(handle).pending() == old(handle).pending(),
            final(handle).modifiers() == old(handle).modifiers(),
    ;

    /// The data about the event that started the grab.
    fn start_data(&self) -> GrabStartData;
}

impl<G> KeyboardInnerHandle<G> {
    pub closed spec fn kbds(&self) -> Seq<ObjectId> {
        self.known_kbds@
    }

    pub closed spec fn focus_spec(&self) -> Option<ObjectId> {
        self.focus
    }

    pub closed spec fn pending(&self) -> Option<ObjectId> {
        self.pending_focus
    }

    pub closed spec fn pressed(&self) -> Seq<u32> {
        self.pressed_keys@
    }

    pub closed spec fn modifiers(&self) -> ModifiersState {
        self.mods_state
    }

    /// The serialized modifiers (depressed, latched, locked, group) as last
    /// reported by the keymap.
    pub closed spec fn serial_mods(&self) -> (u32, u32, u32, u32) {
        self.mods_serial
    }

    pub closed spec fn repeat(&self) -> (i32, i32) {
        (self.repeat_rate, self.repeat_delay)
    }

    pub closed spec fn grab_status(&self) -> &GrabStatus<G> {
        &self.grab
    }

    pub closed spec fn events(&self) -> Seq<KeyboardEvent> {
        self.events@
    }

    /// A grab was installed or removed through this handle since the grab
    /// that runs was called.
    pub closed spec fn grab_changed(&self) -> bool {
        self.grab_changed
    }

    /// The pressed keys can be serialized.
    pub open spec fn keys_fit(&self) -> bool {
        4 * self.pressed().len() <= usize::MAX
    }

    /// `b` keeps the keyboards, keys, modifiers and repeat information of
    /// `a`, and its events start with those of `a`.
    pub open spec fn keeps(a: &Self, b: &Self) -> bool {
        &&& b.kbds() == a.kbds()
        &&& b.pressed() == a.pressed()
        &&& b.modifiers() == a.modifiers()
        &&& b.serial_mods() == a.serial_mods()
        &&& b.repeat() == a.repeat()
        &&& a.events().len() <= b.events().len()
        &&& b.events().subrange(0, a.events().len() as int) == a.events()
    }

    /// `b` is `a` with events appended and nothing else changed but the focus.
    pub open spec fn sends(a: &Self, b: &Self) -> bool {
        &&& Self::keeps(a, b)
        &&& b.pending() == a.pending()
        &&& b.grab_status() == a.grab_status()
        &&& b.grab_changed() == a.grab_changed()
    }

    /// Nothing but the events changed since `a` (the grab slot aside).
    pub open spec fn only_events(a: &Self, b: &Self) -> bool {
        &&& Self::keeps(a, b)
        &&& b.pending() == a.pending()
        &&& b.focus_spec() == a.focus_spec()
    }

    /// The events queued since state `a`.
    pub open spec fn sent_since(&self, a: &Self) -> Seq<KeyboardEvent> {
        self.events().subrange(a.events().len() as int, self.events().len() as int)
    }

    /// A focus request from `a` to `focus` leaves `b` (the pending focus and
    /// the grab slot aside): nothing is sent when the focus stays the same,
    /// otherwise the focus change events.
    pub open spec fn focus_request(a: &Self, b: &Self, reg: Registry, focus: Option<ObjectId>, serial: u32) -> bool {
        &&& Self::keeps(a, b)
        &&& b.focus_spec() == focus
        &&& if a.focus_spec() == focus {
            b.events() == a.events()
        } else {
            focus_change_events(
                b.sent_since(a),
                reg,
                a.kbds(),
                a.focus_spec(),
                focus,
                serial,
                keys_blob(a.pressed()),
                a.serial_mods(),
            )
        }
    }

    /// Access the current focus of this keyboard.
    pub fn current_focus(&self) -> (r: Option<ObjectId>)
        ensures
            r == self.focus_spec(),
    {
        self.focus
    }

    /// Changes the current grab to the provided grab. Its start data is read
    /// now and kept with it.
    pub fn set_grab(&mut self, serial: u32, grab: G)
        where G: KeyboardGrab
        ensures
            final(self).grab_status() matches GrabStatus::Active(s, g, _) && s == serial && g == grab,
            final(self).grab_changed(),
            Self::only_events(old(self), final(self)),
            final(self).events() == old(self).events(),
    {
        let data = grab.start_data();
        self.grab = GrabStatus::Active(serial, grab, data);
        self.grab_changed = true;
        proof {
            assert(self.events@.subrange(0, self.events@.len() as int) =~= self.events@);
        }
    }

    /// Removes the current grab. With `restore_focus`, the focus is then set
    /// to the last one requested (during the grab too).
    pub fn unset_grab(&mut self, reg: &Registry, serial: u32, restore_focus: bool)
        requires
            reg.wf(),
            old(self).keys_fit(),
        ensures
            final(self).grab_status() == GrabStatus::<G>::Inactive,
            final(self).grab_changed(),
            final(self).pending() == old(self).pending(),
            !restore_focus ==> Self::only_events(old(self), final(self)) && final(self).events() == old(self).events(),
            restore_focus ==> Self::focus_request(old(self), final(self), *reg, old(self).pending(), serial),
    {
        self.grab = GrabStatus::Inactive;
        self.grab_changed = true;
        proof {
            assert(self.events@.subrange(0, self.events@.len() as int) =~= self.events@);
        }
        if restore_focus {
            let focus = self.pending_focus;
            self.set_focus(reg, focus, serial);
        }
    }

    /// Sends a key event to the keyboards of the focused client, each
    /// followed by the new modifiers when they changed.
    pub fn input(
        &mut self,
        reg: &Registry,
        keycode: u32,
        key_state: KeyState,
        modifiers: Option<(u32, u32, u32, u32)>,
        serial: u32,
        time: u32,
    )
        requires
            reg.wf(),
        ensures
            Self::sends(old(self), final(self)),
            final(self).focus_spec() == old(self).focus_spec(),
            final(self).sent_since(old(self)) == key_events(
                targets(*reg, old(self).kbds(), old(self).focus_spec()),
                serial,
                time,
                keycode,
                key_state,
                modifiers,
            ),
    {
        let ghost start = self.events@;
        let surface = match self.focus {
            Some(s) => s,
            None => {
                proof {
                    assert(self.events@.subrange(0, start.len() as int) =~= start);
                    assert(self.events@.subrange(start.len() as int, start.len() as int) =~= seq![]);
                }
                return;
            },
        };
        let ghost p = |k: ObjectId| reaches(*reg, k, surface);
        let mut i: usize = 0;
        while i < self.known_kbds.len()
            invariant
                reg.wf(),
                p == (|k: ObjectId| reaches(*reg, k, surface)),
                i <= self.known_kbds@.len(),
                self.known_kbds@ == old(self).known_kbds@,
                self.focus == Some(surface),
                self.pending_focus == old(self).pending_focus,
                self.pressed_keys@ == old(self).pressed_keys@,
                self.mods_state == old(self).mods_state,
                self.mods_serial == old(self).mods_serial,
                self.repeat_rate == old(self).repeat_rate,
                self.repeat_delay == old(self).repeat_delay,
                self.grab == old(self).grab,
                self.grab_changed == old(self).grab_changed,
                start == old(self).events@,
                self.events@ == start + key_events(
                    self.known_kbds@.subrange(0, i as int).filter(p),
                    serial,
                    time,
                    keycode,
                    key_state,
                    modifiers,
                ),
            decreases self.known_kbds@.len() - i,
        {
            let k = self.known_kbds[i];
            let ghost pre = self.known_kbds@.subrange(0, i as int);
            let ghost next = self.known_kbds@.subrange(0, i + 1);
            proof {
                reveal(Seq::filter);
                assert(next.drop_last() =~= pre);
                assert(next.last() == k);
            }
            if reg.is_alive(k) && (surface as usize) < reg.len() as usize && reg.same_client(k, surface) {
                proof {
                    reveal(Seq::filter);
                    assert(next.filter(p) == pre.filter(p).push(k));
                    assert(next.filter(p).drop_last() =~= pre.filter(p));
                }
                self.events.push(KeyboardEvent::Key { keyboard: k, serial, time, key: keycode, state: key_state });
                match modifiers {
                    Some(m) => {
                        self.events.push(KeyboardEvent::Modifiers { keyboard: k, serial, mods: m });
                    },
                    None => {},
                }
            } else {
                proof {
                    reveal(Seq::filter);
                    assert(next.filter(p) == pre.filter(p));
                }
            }
            i += 1;
        }
        proof {
            assert(self.known_kbds@.subrange(0, self.known_kbds@.len() as int) =~= self.known_kbds@);
            assert(self.events@.subrange(0, start.len() as int) =~= start);
        }
    }

    /// Sets the focus. When it changes, the keyboards of the old focus get
    /// `leave`, those of the new one `enter` (with the pressed keys) then
    /// `modifiers`, and the focus hook is called.
    pub fn set_focus(&mut self, reg: &Registry, focus: Option<ObjectId>, serial: u32)
        requires
            reg.wf(),
            old(self).keys_fit(),
        ensures
            Self::focus_request(old(self), final(self), *reg, focus, serial),
            final(self).pending() == old(self).pending(),
            final(self).grab_status() == old(self).grab_status(),
            final(self).grab_changed() == old(self).grab_changed(),
    {
        let m = self.mods_serial;
        self.change_focus(reg, focus, serial, m);
    }

    fn change_focus(&mut self, reg: &Registry, focus: Option<ObjectId>, serial: u32, m: (u32, u32, u32, u32))
        requires
            reg.wf(),
            old(self).keys_fit(),
        ensures
            Self::sends(old(self), final(self)),
            final(self).focus_spec() == focus,
            old(self).focus_spec() == focus ==> final(self).events() == old(self).events(),
            old(self).focus_spec() != focus ==> focus_change_events(
                final(self).sent_since(old(self)),
                *reg,
                old(self).kbds(),
                old(self).focus_spec(),
                focus,
                serial,
                keys_blob(old(self).pressed()),
                m,
            ),
    {
        let same = match (self.focus, focus) {
            (Some(a), Some(b)) => a == b,
            (None, None) => true,
            _ => false,
        };
        if same {
            proof {
                assert(self.events@.subrange(0, self.events@.len() as int) =~= self.events@);
            }
            return;
        }
        let ghost start = self.events@;
        let ghost old_focus = self.focus;
        // unset the old focus
        let ghost lv = match old_focus {
            Some(s) => leave_events(targets(*reg, self.known_kbds@, old_focus), serial, s),
            None => seq![],
        };
        match self.focus {
            Some(surface) => {
                self.send_leaves(reg, surface, serial);
            },
            None => {},
        }
        let ghost mid = self.events@;
        proof {
            assert(mid.subrange(start.len() as int, mid.len() as int) == lv);
        }
        // set the new focus
        self.focus = focus;
        match focus {
            Some(surface) => {
                self.send_enters(reg, surface, serial, m);
            },
            None => {},
        }
        let ghost mid2 = self.events@;
        self.events.push(KeyboardEvent::FocusChanged(focus));
        proof {
            let evs = self.events@.subrange(start.len() as int, self.events@.len() as int);
            assert(evs.subrange(0, lv.len() as int) =~= mid.subrange(start.len() as int, mid.len() as int));
            assert(evs.subrange(lv.len() as int, evs.len() - 1) =~= mid2.subrange(mid.len() as int, mid2.len() as int));
            assert(self.events@.subrange(0, start.len() as int) =~= start);
        }
    }

    fn send_leaves(&mut self, reg: &Registry, surface: ObjectId, serial: u32)
        requires
            reg.wf(),
        ensures
            Self::sends(old(self), final(self)),
            final(self).focus_spec() == old(self).focus_spec(),
            final(self).sent_since(old(self)) == leave_events(
                targets(*reg, old(self).kbds(), Some(surface)),
                serial,
                surface,
            ),
    {
        let ghost start = self.events@;
        let ghost p = |k: ObjectId| reaches(*reg, k, surface);
        let mut i: usize = 0;
        while i < self.known_kbds.len()
            invariant
                reg.wf(),
                p == (|k: ObjectId| reaches(*reg, k, surface)),
                i <= self.known_kbds@.len(),
                self.known_kbds@ == old(self).known_kbds@,
                self.focus == old(self).focus,
                self.pending_focus == old(self).pending_focus,
                self.pressed_keys@ == old(self).pressed_keys@,
                self.mods_state == old(self).mods_state,
                self.mods_serial == old(self).mods_serial,
                self.repeat_rate == old(self).repeat_rate,
                self.repeat_delay == old(self).repeat_delay,
                self.grab == old(self).grab,
                self.grab_changed == old(self).grab_changed,
                start == old(self).events@,
                self.events@ == start + leave_events(self.known_kbds@.subrange(0, i as int).filter(p), serial, surface),
            decreases self.known_kbds@.len() - i,
        {
            let k = self.known_kbds[i];
            let ghost pre = self.known_kbds@.subrange(0, i as int);
            let ghost next = self.known_kbds@.subrange(0, i + 1);
            proof {
                reveal(Seq::filter);
                assert(next.drop_last() =~= pre);
                assert(next.last() == k);
            }
            if reg.is_alive(k) && (surface as usize) < reg.len() as usize && reg.same_client(k, surface) {
                proof {
                    reveal(Seq::filter);
                    assert(next.filter(p) == pre.filter(p).push(k));
                    assert(next.filter(p).drop_last() =~= pre.filter(p));
                }
                self.events.push(KeyboardEvent::Leave { keyboard: k, serial, surface });
            } else {
                proof {
                    reveal(Seq::filter);
                    assert(next.filter(p) == pre.filter(p));
                }
            }
            i += 1;
        }
        proof {
            assert(self.known_kbds@.subrange(0, self.known_kbds@.len() as int) =~= self.known_kbds@);
            assert(self.events@.subrange(0, start.len() as int) =~= start);
        }
    }

    fn send_enters(&mut self, reg: &Registry, surface: ObjectId, serial: u32, m: (u32, u32, u32, u32))
        requires
            reg.wf(),
            old(self).keys_fit(),
        ensures
            Self::sends(old(self), final(self)),
            final(self).focus_spec() == old(self).focus_spec(),
            enter_events(
                final(self).sent_since(old(self)),
                targets(*reg, old(self).kbds(), Some(surface)),
                serial,
                surface,
                keys_blob(old(self).pressed()),
                m,
            ),
    {
        let ghost start = self.events@;
        let ghost p = |k: ObjectId| reaches(*reg, k, surface);
        let ghost blob = keys_blob(self.pressed_keys@);
        let mut i: usize = 0;
        while i < self.known_kbds.len()
            invariant
                reg.wf(),
                p == (|k: ObjectId| reaches(*reg, k, surface)),
                i <= self.known_kbds@.len(),
                4 * self.pressed_keys@.len() <= usize::MAX,
                self.known_kbds@ == old(self).known_kbds@,
                self.focus == old(self).focus,
                self.pending_focus == old(self).pending_focus,
                self.pressed_keys@ == old(self).pressed_keys@,
                self.mods_state == old(self).mods_state,
                self.mods_serial == old(self).mods_serial,
                self.repeat_rate == old(self).repeat_rate,
                self.repeat_delay == old(self).repeat_delay,
                self.grab == old(self).grab,
                self.grab_changed == old(self).grab_changed,
                start == old(self).events@,
                blob == keys_blob(old(self).pressed_keys@),
                start.len() <= self.events@.len(),
                self.events@.subrange(0, start.len() as int) == start,
                enter_events(
                    self.events@.subrange(start.len() as int, self.events@.len() as int),
                    self.known_kbds@.subrange(0, i as int).filter(p),
                    serial,
                    surface,
                    blob,
                    m,
                ),
            decreases self.known_kbds@.len() - i,
        {
            let k = self.known_kbds[i];
            let ghost pre = self.known_kbds@.subrange(0, i as int);
            let ghost next = self.known_kbds@.subrange(0, i + 1);
            proof {
                reveal(Seq::filter);
                assert(next.drop_last() =~= pre);
                assert(next.last() == k);
            }
            if reg.is_alive(k) && (surface as usize) < reg.len() as usize && reg.same_client(k, surface) {
                let ghost before = self.events@;
                let keys = serialize_pressed_keys(&self.pressed_keys);
                self.events.push(KeyboardEvent::Enter { keyboard: k, serial, surface, keys });
                // modifiers must be sent after the enter event
                self.events.push(KeyboardEvent::Modifiers { keyboard: k, serial, mods: m });
                proof {
                    reveal(Seq::filter);
                    assert(next.filter(p) == pre.filter(p).push(k));
                    let ks = next.filter(p);
                    let evs = self.events@.subrange(start.len() as int, self.events@.len() as int);
                    let prev_evs = before.subrange(start.len() as int, before.len() as int);
                    assert forall|j: int| 0 <= j < ks.len() implies #[trigger] enter_at(evs, j, ks[j], serial, surface, blob, m) by {
                        if j < ks.len() - 1 {
                            assert(enter_at(prev_evs, j, pre.filter(p)[j], serial, surface, blob, m));
                            assert(evs[2 * j] == prev_evs[2 * j]);
                            assert(evs[2 * j + 1] == prev_evs[2 * j + 1]);
                        }
                    }
                    assert(self.events@.subrange(0, start.len() as int) =~= start);
                }
            } else {
                proof {
                    reveal(Seq::filter);
                    assert(next.filter(p) == pre.filter(p));
                }
            }
            i += 1;
        }
        proof {
            assert(self.known_kbds@.subrange(0, self.known_kbds@.len() as int) =~= self.known_kbds@);
        }
    }
}

/// The behavior when no grab is installed: input and focus requests go
/// straight to the inner handle.
pub struct DefaultGrab;

impl KeyboardGrab for DefaultGrab {
    fn input<H>(
        &mut self,
        handle: &mut KeyboardInnerHandle<H>,
        reg: &Registry,
        keycode: u32,
        key_state: KeyState,
        modifiers: Option<(u32, u32, u32, u32)>,
        serial: u32,
        time: u32,
    )
        ensures
            KeyboardInnerHandle::sends(old(handle), final(handle)),
            final(handle).focus_spec() == old(handle).focus_spec(),
            final(handle).sent_since(old(handle)) == key_events(
                targets(*reg, old(handle).kbds(), old(handle).focus_spec()),
                serial,
                time,
                keycode,
                key_state,
                modifiers,
            ),
    {
        handle.input(reg, keycode, key_state, modifiers, serial, time)
    }

    fn set_focus<H>(
        &mut self,
        handle: &mut KeyboardInnerHandle<H>,
        reg: &Registry,
        focus: Option<ObjectId>,
        serial: u32,
    )
        ensures
            KeyboardInnerHandle::focus_request(old(handle), final(handle), *reg, focus, serial),
            final(handle).pending() == old(handle).pending(),
            final(handle).grab_status() == old(handle).grab_status(),
            final(handle).grab_changed() == old(handle).grab_changed(),
    {
        handle.set_focus(reg, focus, serial)
    }

    fn start_data(&self) -> GrabStartData {
        GrabStartData { focus: None }
    }
}

/// Handle to the key that was pressed or released, to read its keysyms.
#[derive(Debug)]
pub struct KeysymHandle {
    keycode: u32,
    modified_sym: u32,
    modified_syms: Vec<u32>,
    raw_syms: Vec<u32>,
}

/// What the keymap made of a key event.
#[derive(Debug)]
pub struct KeyUpdate {
    /// The keymap reports that the modifiers changed.
    pub changed: bool,
    /// The effective modifiers after the event.
    pub modifiers: ModifiersState,
    /// The depressed, latched and locked modifiers and the locked layout after the event.
    pub serialized: (u32, u32, u32, u32),
    /// The key, for the input filter.
    pub keysym: KeysymHandle,
}

impl KeysymHandle {
    /// A key with its raw code (in the xkb key code system) and its keysyms.
    pub fn new(keycode: u32, modified_sym: u32, modified_syms: Vec<u32>, raw_syms: Vec<u32>) -> (r: KeysymHandle)
        ensures
            r.code() == keycode,
            r.sym() == modified_sym,
            r.syms() == modified_syms@,
            r.raw() == raw_syms@,
    {
        KeysymHandle { keycode, modified_sym, modified_syms, raw_syms }
    }

    /// The sym of the key with all modifications of the current keymap state
    /// applied; no symbol when the key has not exactly one.
    pub fn modified_sym(&self) -> (r: u32)
        ensures
            r == self.sym(),
    {
        self.modified_sym
    }

    /// The syms of the key with all modifications of the current keymap state applied.
    pub fn modified_syms(&self) -> (r: &[u32])
        ensures
            r@ == self.syms(),
    {
        self.modified_syms.as_slice()
    }

    /// The syms of the key without the modifications of the current keymap state.
    pub fn raw_syms(&self) -> (r: &[u32])
        ensures
            r@ == self.raw(),
    {
        self.raw_syms.as_slice()
    }

    pub closed spec fn sym(&self) -> u32 {
        self.modified_sym
    }

    pub closed spec fn syms(&self) -> Seq<u32> {
        self.modified_syms@
    }

    pub closed spec fn raw(&self) -> Seq<u32> {
        self.raw_syms@
    }

    /// The raw code of the key in the xkb key code system (shifted by 8).
    pub fn raw_code(&self) -> (r: u32)
        ensures
            r == self.code(),
    {
        self.keycode
    }

    pub closed spec fn code(&self) -> u32 {
        self.keycode
    }
}

/// A handle to the keyboard of a seat, with grabs of type `G`.
///
/// Key input and focus changes go through the current grab; events for
/// clients are queued until taken with [`KeyboardHandle::take_events`].
pub struct KeyboardHandle<G> {
    inner: KeyboardInnerHandle<G>,
    keymap: String,
}

/// The modifiers after a key event with this update, from `m`.
pub open spec fn modifiers_after(update: KeyUpdate, m: ModifiersState) -> ModifiersState {
    if update.changed {
        update.modifiers
    } else {
        m
    }
}

/// The serial of a grab slot's grab, if any.
pub open spec fn slot_serial<G>(g: &GrabStatus<G>) -> Option<u32> {
    match g {
        GrabStatus::Active(s, _, _) => Some(*s),
        _ => None,
    }
}

/// The start data of a grab slot's grab, if any.
pub open spec fn slot_data<G>(g: &GrabStatus<G>) -> Option<GrabStartData> {
    match g {
        GrabStatus::Active(_, _, d) => Some(*d),
        _ => None,
    }
}

/// The start surface of the grab died.
pub open spec fn orphaned(reg: Registry, d: GrabStartData) -> bool {
    d.focus matches Some(s) && !reg.live(s)
}

/// Input and focus requests take the default behavior: no grab is
/// installed, or the installed grab is dropped because its start surface died.
pub open spec fn default_runs<G>(reg: Registry, g: &GrabStatus<G>) -> bool {
    match g {
        GrabStatus::Inactive => true,
        GrabStatus::Active(_, _, d) => orphaned(reg, *d),
        GrabStatus::Borrowed => false,
    }
}

/// After a grab ran: unless it installed or removed a grab itself, it is
/// back in the slot, with the same serial and start data.
pub open spec fn grab_put_back<G>(a: &KeyboardInnerHandle<G>, b: &KeyboardInnerHandle<G>) -> bool {
    !b.grab_changed() ==> {
        &&& b.grab_status() is Active
        &&& slot_serial(b.grab_status()) == slot_serial(a.grab_status())
        &&& slot_data(b.grab_status()) == slot_data(a.grab_status())
    }
}

impl<G: KeyboardGrab> KeyboardHandle<G> {
    pub closed spec fn inner_spec(&self) -> KeyboardInnerHandle<G> {
        self.inner
    }

    /// No grab is running.
    pub open spec fn wf(&self) -> bool {
        !(self.inner_spec().grab_status() is Borrowed)
    }

    /// The serial of the installed grab, if any.
    pub open spec fn grab_serial(&self) -> Option<u32> {
        slot_serial(self.inner_spec().grab_status())
    }

    /// The keymap, serialized in the text v1 format, to share with clients.
    pub fn keymap_string(&self) -> (r: &String)
        ensures
            r@ == self.keymap_spec(),
    {
        &self.keymap
    }

    /// Takes the queued events, in the order they were caused.
    pub fn take_events(&mut self) -> (r: Vec<KeyboardEvent>)
        ensures
            r@ == old(self).inner_spec().events(),
            final(self).inner_spec().events().len() == 0,
            KeyboardInnerHandle::sends(&final(self).inner_spec(), &old(self).inner_spec()),
            final(self).inner_spec().focus_spec() == old(self).inner_spec().focus_spec(),
    {
        let mut r: Vec<KeyboardEvent> = Vec::new();
        core::mem::swap(&mut r, &mut self.inner.events);
        proof {
            assert(r@.subrange(0, 0) =~= self.inner.events@);
        }
        r
    }

    /// The pressed keys, in the order they were pressed.
    pub fn pressed_keys(&self) -> (r: &Vec<u32>)
        ensures
            r@ == self.inner_spec().pressed(),
    {
        &self.inner.pressed_keys
    }

    /// The modifiers as last read from the keymap state.
    pub fn modifiers_state(&self) -> (r: ModifiersState)
        ensures
            r == self.inner_spec().modifiers(),
    {
        self.inner.mods_state
    }

    /// Changes the current grab to the provided grab, replacing any other.
    /// The grab's start data is read now and kept with it.
    pub fn set_grab(&mut self, grab: G, serial: u32)
        ensures
            final(self).wf(),
            final(self).grab_serial() == Some(serial),
            final(self).inner_spec().grab_status() matches GrabStatus::Active(_, g, _) && g == grab,
            KeyboardInnerHandle::only_events(&old(self).inner_spec(), &final(self).inner_spec()),
            final(self).inner_spec().events() == old(self).inner_spec().events(),
    {
        self.inner.set_grab(serial, grab);
    }

    /// Removes any grab, back to the default behavior.
    pub fn unset_grab(&mut self)
        ensures
            final(self).wf(),
            final(self).grab_serial() is None,
            final(self).inner_spec().grab_status() == GrabStatus::<G>::Inactive,
            KeyboardInnerHandle::only_events(&old(self).inner_spec(), &final(self).inner_spec()),
            final(self).inner_spec().events() == old(self).inner_spec().events(),
    {
        self.inner.grab = GrabStatus::Inactive;
        proof {
            assert(self.inner.events@.subrange(0, self.inner.events@.len() as int) =~= self.inner.events@);
        }
    }

    /// Whether the keyboard is grabbed with this serial.
    pub fn has_grab(&self, serial: u32) -> (r: bool)
        ensures
            r == (self.grab_serial() == Some(serial)),
    {
        match &self.inner.grab {
            GrabStatus::Active(s, _, _) => *s == serial,
            _ => false,
        }
    }

    /// Whether a grab is installed.
    pub fn is_grabbed(&self) -> (r: bool)
        requires
            self.wf(),
        ensures
            r == (self.grab_serial() is Some),
    {
        !matches!(self.inner.grab, GrabStatus::Inactive)
    }

    /// The start data of the installed grab, as read when it was installed.
    pub fn grab_start_data(&self) -> (r: Option<GrabStartData>)
        ensures
            r == slot_data(self.inner_spec().grab_status()),
    {
        match &self.inner.grab {
            GrabStatus::Active(_, _, d) => Some(*d),
            _ => None,
        }
    }

    /// Whether a surface of this client has the focus.
    pub fn has_focus(&self, reg: &Registry, client: ClientId) -> (r: bool)
        requires
            reg.wf(),
        ensures
            r == (self.inner_spec().focus_spec() matches Some(s) && reg.live(s) && reg.owner(s) == client),
    {
        match self.inner.focus {
            Some(s) => reg.is_alive(s) && reg.is_owned_by(s, client),
            None => false,
        }
    }

    /// The client of the focused surface, when it is alive.
    pub fn focused_client(&self, reg: &Registry) -> (r: Option<ClientId>)
        requires
            reg.wf(),
        ensures
            r == (match self.inner_spec().focus_spec() {
                Some(s) => if reg.live(s) {
                    Some(reg.owner(s))
                } else {
                    None
                },
                None => None,
            }),
    {
        match self.inner.focus {
            Some(s) => if reg.is_alive(s) {
                reg.client_of(s)
            } else {
                None
            },
            None => None,
        }
    }

    /// Whether any surface has the focus.
    pub fn is_focused(&self) -> (r: bool)
        ensures
            r == (self.inner_spec().focus_spec() is Some),
    {
        self.inner.focus.is_some()
    }

    /// The focused surface.
    pub fn current_focus(&self) -> (r: Option<ObjectId>)
        ensures
            r == self.inner_spec().focus_spec(),
    {
        self.inner.focus
    }

    /// Whether the start data of a grab names a surface that died.
    fn grab_orphaned(reg: &Registry, data: GrabStartData) -> (r: bool)
        requires
            reg.wf(),
        ensures
            r == orphaned(*reg, data),
    {
        match data.focus {
            Some(s) => !reg.is_alive(s),
            None => false,
        }
    }

    /// Runs a key input through the current grab.
    fn grab_input(
        &mut self,
        reg: &Registry,
        keycode: u32,
        key_state: KeyState,
        modifiers: Option<(u32, u32, u32, u32)>,
        serial: u32,
        time: u32,
    )
        requires
            reg.wf(),
            old(self).wf(),
        ensures
            final(self).wf(),
            final(self).inner_spec().pressed() == old(self).inner_spec().pressed(),
            final(self).inner_spec().pending() == old(self).inner_spec().pending(),
            final(self).inner_spec().modifiers() == old(self).inner_spec().modifiers(),
            default_runs(*reg, old(self).inner_spec().grab_status()) ==> {
                &&& final(self).inner_spec().grab_status() == GrabStatus::<G>::Inactive
                &&& KeyboardInnerHandle::only_events(&old(self).inner_spec(), &final(self).inner_spec())
                &&& final(self).inner_spec().sent_since(&old(self).inner_spec()) == key_events(
                    targets(*reg, old(self).inner_spec().kbds(), old(self).inner_spec().focus_spec()),
                    serial,
                    time,
                    keycode,
                    key_state,
                    modifiers,
                )
            },
            !default_runs(*reg, old(self).inner_spec().grab_status()) ==> grab_put_back(
                &old(self).inner_spec(),
                &final(self).inner_spec(),
            ),
    {
        let mut grab = GrabStatus::Borrowed;
        core::mem::swap(&mut grab, &mut self.inner.grab);
        match grab {
            GrabStatus::Active(s, mut handler, data) => {
                if Self::grab_orphaned(reg, data) {
                    // the grab is tied to a surface that died: drop it
                    DefaultGrab.input(&mut self.inner, reg, keycode, key_state, modifiers, serial, time);
                    self.inner.grab = GrabStatus::Inactive;
                } else {
                    self.inner.grab_changed = false;
                    handler.input(&mut self.inner, reg, keycode, key_state, modifiers, serial, time);
                    if !self.inner.grab_changed || matches!(self.inner.grab, GrabStatus::Borrowed) {
                        self.inner.grab = GrabStatus::Active(s, handler, data);
                    }
                }
            },
            _ => {
                DefaultGrab.input(&mut self.inner, reg, keycode, key_state, modifiers, serial, time);
                self.inner.grab = GrabStatus::Inactive;
            },
        }
    }

    /// Runs a focus request through the current grab.
    fn grab_set_focus(&mut self, reg: &Registry, focus: Option<ObjectId>, serial: u32)
        requires
            reg.wf(),
            old(self).wf(),
            old(self).inner_spec().keys_fit(),
        ensures
            final(self).wf(),
            final(self).inner_spec().pressed() == old(self).inner_spec().pressed(),
            final(self).inner_spec().pending() == old(self).inner_spec().pending(),
            final(self).inner_spec().modifiers() == old(self).inner_spec().modifiers(),
            default_runs(*reg, old(self).inner_spec().grab_status()) ==> {
                &&& final(self).inner_spec().grab_status() == GrabStatus::<G>::Inactive
                &&& KeyboardInnerHandle::focus_request(
                    &old(self).inner_spec(),
                    &final(self).inner_spec(),
                    *reg,
                    focus,
                    serial,
                )
            },
            !default_runs(*reg, old(self).inner_spec().grab_status()) ==> grab_put_back(
                &old(self).inner_spec(),
                &final(self).inner_spec(),
            ),
    {
        let mut grab = GrabStatus::Borrowed;
        core::mem::swap(&mut grab, &mut self.inner.grab);
        match grab {
            GrabStatus::Active(s, mut handler, data) => {
                if Self::grab_orphaned(reg, data) {
                    DefaultGrab.set_focus(&mut self.inner, reg, focus, serial);
                    self.inner.grab = GrabStatus::Inactive;
                } else {
                    self.inner.grab_changed = false;
                    handler.set_focus(&mut self.inner, reg, focus, serial);
                    if !self.inner.grab_changed || matches!(self.inner.grab, GrabStatus::Borrowed) {
                        self.inner.grab = GrabStatus::Active(s, handler, data);
                    }
                }
            },
            _ => {
                DefaultGrab.set_focus(&mut self.inner, reg, focus, serial);
                self.inner.grab = GrabStatus::Inactive;
            },
        }
    }
}

impl<G> KeyboardInnerHandle<G> {
    /// Tracks a key event: the pressed keys, and the modifiers when the
    /// keymap reports that they changed. Returns whether they changed.
    fn key_input(&mut self, keycode: u32, state: KeyState, update: &KeyUpdate) -> (changed: bool)
        ensures
            changed == update.changed,
            final(self).pressed() == keys_after(old(self).pressed(), keycode, state),
            final(self).kbds() == old(self).kbds(),
            final(self).focus_spec() == old(self).focus_spec(),
            final(self).pending() == old(self).pending(),
            final(self).repeat() == old(self).repeat(),
            final(self).grab_status() == old(self).grab_status(),
            final(self).events() == old(self).events(),
            final(self).modifiers() == (if update.changed {
                update.modifiers
            } else {
                old(self).modifiers()
            }),
            final(self).serial_mods() == (if update.changed {
                update.serialized
            } else {
                old(self).serial_mods()
            }),
    {
        track_key(&mut self.pressed_keys, keycode, state);
        if update.changed {
            self.mods_state = update.modifiers;
            self.mods_serial = update.serialized;
        }
        update.changed
    }
}

impl<G: KeyboardGrab> KeyboardHandle<G> {
    /// Handles a key event from the input backend. All keys must be fed in
    /// order, each with what the keymap made of it (`update`).
    ///
    /// The pressed keys and the modifiers are updated first. Then `filter`
    /// sees the modifiers and the key: when it returns
    /// [`FilterResult::Intercept`], its value is returned and nothing is sent
    /// to clients (a compositor key binding). Otherwise the key goes to the
    /// current grab, by default to the keyboards of the focused client, each
    /// followed by the new modifiers when they changed.
    pub fn input<T, F>(
        &mut self,
        reg: &Registry,
        keycode: u32,
        state: KeyState,
        serial: u32,
        time: u32,
        update: KeyUpdate,
        filter: F,
    ) -> (r: Option<T>) where F: FnOnce(&ModifiersState, KeysymHandle) -> FilterResult<T>
        requires
            reg.wf(),
            old(self).wf(),
            forall|m: &ModifiersState, h: KeysymHandle| filter.requires((m, h)),
        ensures
            final(self).wf(),
            final(self).inner_spec().pressed() == keys_after(
                old(self).inner_spec().pressed(),
                keycode,
                state,
            ),
            final(self).inner_spec().modifiers() == (if update.changed {
                update.modifiers
            } else {
                old(self).inner_spec().modifiers()
            }),
            exists|fr: FilterResult<T>| #[trigger] filter.ensures(
                (
                    &modifiers_after(update, old(self).inner_spec().modifiers()),
                    update.keysym,
                ),
                fr,
            ) && match fr {
                FilterResult::Intercept(v) => {
                    &&& r == Some(v)
                    &&& final(self).inner_spec().events() == old(self).inner_spec().events()
                    &&& final(self).inner_spec().focus_spec() == old(self).inner_spec().focus_spec()
                    &&& final(self).inner_spec().grab_status() == old(self).inner_spec().grab_status()
                },
                FilterResult::Forward => {
                    &&& r is None
                    &&& Self::forwarded(
                        old(self),
                        final(self),
                        *reg,
                        keycode,
                        state,
                        serial,
                        time,
                        if update.changed {
                            Some(update.serialized)
                        } else {
                            None
                        },
                    )
                },
            },
    {
        let mods_changed = self.inner.key_input(keycode, state, &update);
        let modifiers = if mods_changed {
            Some(update.serialized)
        } else {
            None
        };
        let ghost mods = self.inner.mods_state;
        let fr = filter(&self.inner.mods_state, update.keysym);
        let ghost fr_g = fr;
        match fr {
            FilterResult::Intercept(v) => {
                proof {
                    assert(filter.ensures((&mods, update.keysym), fr_g));
                }
                return Some(v);
            },
            FilterResult::Forward => {},
        }
        let ghost mid = self.inner;
        self.grab_input(reg, keycode, state, modifiers, serial, time);
        proof {
            assert(filter.ensures((&mods, update.keysym), fr_g));
            let a = old(self).inner;
            let b = self.inner;
            if default_runs(*reg, a.grab_status()) {
                assert(b.sent_since(&a) == b.sent_since(&mid));
                assert(b.events().subrange(0, a.events().len() as int) == a.events());
            }
        }
        None
    }

    /// A key that the filter let through, from `a` to `b`: with the default
    /// behavior (no grab, or a grab whose start surface died, which is then
    /// dropped), the key and, when they changed, the modifiers go to each
    /// keyboard of the focused client; with a grab, the grab decides what is
    /// sent, and it is put back unless it installed or removed a grab itself.
    pub open spec fn forwarded(
        a: &Self,
        b: &Self,
        reg: Registry,
        keycode: u32,
        state: KeyState,
        serial: u32,
        time: u32,
        mods: Option<(u32, u32, u32, u32)>,
    ) -> bool {
        let (ia, ib) = (a.inner_spec(), b.inner_spec());
        if default_runs(reg, ia.grab_status()) {
            &&& ib.grab_status() == GrabStatus::<G>::Inactive
            &&& ib.focus_spec() == ia.focus_spec()
            &&& ib.kbds() == ia.kbds()
            &&& ib.pending() == ia.pending()
            &&& ia.events().len() <= ib.events().len()
            &&& ib.events().subrange(0, ia.events().len() as int) == ia.events()
            &&& ib.sent_since(&ia) == key_events(
                targets(reg, ia.kbds(), ia.focus_spec()),
                serial,
                time,
                keycode,
                state,
                mods,
            )
        } else {
            grab_put_back(&ia, &ib)
        }
    }

    /// Sets the focus of the keyboard, through the current grab. By default,
    /// when the focus changes, the keyboards of the old focus get `leave` and
    /// those of the new one get `enter` then `modifiers`.
    ///
    /// The requested focus is remembered, so that a grab that ends can
    /// restore it.
    pub fn set_focus(&mut self, reg: &Registry, focus: Option<ObjectId>, serial: u32)
        requires
            reg.wf(),
            old(self).wf(),
            old(self).inner_spec().keys_fit(),
        ensures
            final(self).wf(),
            final(self).inner_spec().pressed() == old(self).inner_spec().pressed(),
            final(self).inner_spec().pending() == focus,
            final(self).inner_spec().modifiers() == old(self).inner_spec().modifiers(),
            default_runs(*reg, old(self).inner_spec().grab_status()) ==> {
                &&& final(self).inner_spec().grab_status() == GrabStatus::<G>::Inactive
                &&& KeyboardInnerHandle::focus_request(
                    &old(self).inner_spec(),
                    &final(self).inner_spec(),
                    *reg,
                    focus,
                    serial,
                )
            },
            !default_runs(*reg, old(self).inner_spec().grab_status()) ==> grab_put_back(
                &old(self).inner_spec(),
                &final(self).inner_spec(),
            ),
    {
        self.inner.pending_focus = focus;
        self.grab_set_focus(reg, focus, serial);
    }

    /// Registers a keyboard object of a client, to which the keymap was
    /// already sent. Keyboards of version 4 and above get the repeat information.
    pub fn new_kbd(&mut self, reg: &Registry, kbd: ObjectId)
        requires
            reg.wf(),
        ensures
            final(self).wf() == old(self).wf(),
            final(self).grab_serial() == old(self).grab_serial(),
            final(self).inner_spec().kbds() == old(self).inner_spec().kbds().push(kbd),
            final(self).inner_spec().focus_spec() == old(self).inner_spec().focus_spec(),
            final(self).inner_spec().pressed() == old(self).inner_spec().pressed(),
            final(self).inner_spec().events() == if reg.has_object(kbd) && reg.objects()[kbd as int].version >= REPEAT_INFO_SINCE_VERSION {
                old(self).inner_spec().events().push(KeyboardEvent::RepeatInfo {
                    keyboard: kbd,
                    rate: old(self).inner_spec().repeat().0,
                    delay: old(self).inner_spec().repeat().1,
                })
            } else {
                old(self).inner_spec().events()
            },
    {
        if reg.version(kbd) >= REPEAT_INFO_SINCE_VERSION {
            self.inner.events.push(KeyboardEvent::RepeatInfo {
                keyboard: kbd,
                rate: self.inner.repeat_rate,
                delay: self.inner.repeat_delay,
            });
        }
        self.inner.known_kbds.push(kbd);
    }

    /// A keyboard object was destroyed: it gets no more events.
    pub fn kbd_destroyed(&mut self, kbd: ObjectId)
        ensures
            final(self).wf() == old(self).wf(),
            final(self).grab_serial() == old(self).grab_serial(),
            final(self).inner_spec().kbds() == old(self).inner_spec().kbds().filter(|k: ObjectId| k != kbd),
            final(self).inner_spec().focus_spec() == old(self).inner_spec().focus_spec(),
            final(self).inner_spec().pressed() == old(self).inner_spec().pressed(),
            final(self).inner_spec().events() == old(self).inner_spec().events(),
    {
        let ghost p = |k: ObjectId| k != kbd;
        let mut kept: Vec<ObjectId> = Vec::new();
        let mut i: usize = 0;
        while i < self.inner.known_kbds.len()
            invariant
                p == (|k: ObjectId| k != kbd),
                i <= self.inner.known_kbds@.len(),
                kept@ == self.inner.known_kbds@.subrange(0, i as int).filter(p),
            decreases self.inner.known_kbds@.len() - i,
        {
            let k = self.inner.known_kbds[i];
            proof {
                reveal(Seq::filter);
                let next = self.inner.known_kbds@.subrange(0, i + 1);
                assert(next.drop_last() =~= self.inner.known_kbds@.subrange(0, i as int));
                assert(next.last() == k);
            }
            if k != kbd {
                kept.push(k);
            }
            i += 1;
        }
        proof {
            assert(self.inner.known_kbds@.subrange(0, self.inner.known_kbds@.len() as int)
                =~= self.inner.known_kbds@);
        }
        self.inner.known_kbds = kept;
    }

    /// Changes the repeat rate and delay, and sends them to every live
    /// keyboard of version 4 and above.
    pub fn change_repeat_info(&mut self, reg: &Registry, rate: i32, delay: i32)
        requires
            reg.wf(),
        ensures
            final(self).wf() == old(self).wf(),
            final(self).grab_serial() == old(self).grab_serial(),
            final(self).inner_spec().repeat() == (rate, delay),
            final(self).inner_spec().kbds() == old(self).inner_spec().kbds(),
            final(self).inner_spec().focus_spec() == old(self).inner_spec().focus_spec(),
            final(self).inner_spec().pressed() == old(self).inner_spec().pressed(),
            final(self).inner_spec().events() == old(self).inner_spec().events() + repeat_events(
                *reg,
                old(self).inner_spec().kbds(),
                rate,
                delay,
            ),
    {
        self.inner.repeat_delay = delay;
        self.inner.repeat_rate = rate;
        let ghost start = self.inner.events@;
        let mut i: usize = 0;
        while i < self.inner.known_kbds.len()
            invariant
                reg.wf(),
                i <= self.inner.known_kbds@.len(),
                self.inner.known_kbds@ == old(self).inner.known_kbds@,
                self.inner.grab == old(self).inner.grab,
                self.inner.focus == old(self).inner.focus,
                self.inner.pending_focus == old(self).inner.pending_focus,
                self.inner.pressed_keys@ == old(self).inner.pressed_keys@,
                self.inner.mods_state == old(self).inner.mods_state,
                self.inner.mods_serial == old(self).inner.mods_serial,
                self.inner.grab_changed == old(self).inner.grab_changed,
                self.inner.repeat_rate == rate,
                self.inner.repeat_delay == delay,
                self.inner.events@ == start + repeat_events(*reg, self.inner.known_kbds@.subrange(0, i as int), rate, delay),
            decreases self.inner.known_kbds@.len() - i,
        {
            let k = self.inner.known_kbds[i];
            proof {
                let next = self.inner.known_kbds@.subrange(0, i + 1);
                assert(next.drop_last() =~= self.inner.known_kbds@.subrange(0, i as int));
                assert(next.last() == k);
            }
            if reg.is_alive(k) && reg.version(k) >= REPEAT_INFO_SINCE_VERSION {
                self.inner.events.push(KeyboardEvent::RepeatInfo { keyboard: k, rate, delay });
            }
            i += 1;
        }
        proof {
            assert(self.inner.known_kbds@.subrange(0, self.inner.known_kbds@.len() as int)
                =~= self.inner.known_kbds@);
        }
    }
}

/// `repeat_info` to each live keyboard of version 4 and above, in turn.
pub open spec fn repeat_events(reg: Registry, ks: Seq<ObjectId>, rate: i32, delay: i32) -> Seq<KeyboardEvent>
    decreases ks.len(),
{
    if ks.len() == 0 {
        seq![]
    } else {
        let prev = repeat_events(reg, ks.drop_last(), rate, delay);
        let k = ks.last();
        if reg.live(k) && reg.objects()[k as int].version >= REPEAT_INFO_SINCE_VERSION {
            prev.push(KeyboardEvent::RepeatInfo { keyboard: k, rate, delay })
        } else {
            prev
        }
    }
}

impl<G: KeyboardGrab> KeyboardHandle<G> {
    /// A keyboard with the given keymap (serialized in the text v1 format)
    /// and repeat information: no keyboard object, no focus, no key pressed,
    /// no modifier, no grab.
    pub fn new(keymap: String, repeat_delay: i32, repeat_rate: i32) -> (r: KeyboardHandle<G>)
        ensures
            r.wf(),
            r.grab_serial() is None,
            r.inner_spec().kbds().len() == 0,
            r.inner_spec().focus_spec() is None,
            r.inner_spec().pending() is None,
            r.inner_spec().pressed().len() == 0,
            r.inner_spec().modifiers() == ModifiersState::none(),
            r.inner_spec().serial_mods() == (0u32, 0u32, 0u32, 0u32),
            r.inner_spec().repeat() == (repeat_rate, repeat_delay),
            r.inner_spec().events().len() == 0,
            r.keymap_spec() == keymap@,
    {
        let inner = KeyboardInnerHandle {
            known_kbds: Vec::new(),
            focus: None,
            pending_focus: None,
            pressed_keys: Vec::new(),
            mods_state: ModifiersState::new(),
            mods_serial: (0, 0, 0, 0),
            repeat_rate,
            repeat_delay,
            grab: GrabStatus::Inactive,
            grab_changed: false,
            events: Vec::new(),
        };
        KeyboardHandle { inner, keymap }
    }

    pub closed spec fn keymap_spec(&self) -> Seq<char> {
        self.keymap@
    }
}

proof fn lemma_leaves_are_leave(ks: Seq<ObjectId>, serial: u32, s: ObjectId)
    ensures
        leave_events(ks, serial, s).len() == ks.len(),
        forall|j: int| 0 <= j < ks.len() ==> #[trigger] leave_events(ks, serial, s)[j] is Leave,
    decreases ks.len(),
{
    if ks.len() > 0 {
        lemma_leaves_are_leave(ks.drop_last(), serial, s);
    }
}

/// In the events of a focus change, every `enter` is followed at once by
/// the `modifiers` of the same keyboard, before any other event.
pub proof fn lemma_enter_then_modifiers(
    evs: Seq<KeyboardEvent>,
    reg: Registry,
    kbds: Seq<ObjectId>,
    old: Option<ObjectId>,
    new: Option<ObjectId>,
    serial: u32,
    blob: Seq<u8>,
    m: (u32, u32, u32, u32),
    i: int,
)
    requires
        focus_change_events(evs, reg, kbds, old, new, serial, blob, m),
        0 <= i < evs.len(),
        (evs[i] is Enter),
    ensures
        i + 1 < evs.len(),
        evs[i + 1] == (KeyboardEvent::Modifiers { keyboard: evs[i]->Enter_keyboard, serial, mods: m }),
{
    let lv = match old {
        Some(s) => leave_events(targets(reg, kbds, old), serial, s),
        None => seq![],
    };
    let n = evs.len() as int;
    match old {
        Some(s) => lemma_leaves_are_leave(targets(reg, kbds, old), serial, s),
        None => {},
    }
    if i < lv.len() {
        assert(evs.subrange(0, lv.len() as int)[i] == evs[i]);
    } else if i == n - 1 {
    } else {
        let j = i - lv.len();
        let es = evs.subrange(lv.len() as int, n - 1);
        match new {
            Some(s) => {
                let ks = targets(reg, kbds, new);
                let q = j / 2;
                assert(es[j] == evs[i]);
                if j % 2 == 1 {
                    assert(enter_at(es, q, ks[q], serial, s, blob, m));
                    assert(j == 2 * q + 1);
                } else {
                    assert(enter_at(es, q, ks[q], serial, s, blob, m));
                    assert(j == 2 * q);
                    assert(es[j + 1] == evs[i + 1]);
                }
            },
            None => {},
        }
    }
}

/// Asking twice in a row for the focus on the same surface sends nothing
/// the second time.
pub proof fn lemma_refocus_silent<G>(
    a: KeyboardInnerHandle<G>,
    b: KeyboardInnerHandle<G>,
    c: KeyboardInnerHandle<G>,
    reg: Registry,
    f: ObjectId,
    s1: u32,
    s2: u32,
)
    requires
        KeyboardInnerHandle::focus_request(&a, &b, reg, Some(f), s1),
        KeyboardInnerHandle::focus_request(&b, &c, reg, Some(f), s2),
    ensures
        c.events() == b.events(),
        c.focus_spec() == Some(f),
{
}

} // verus!
