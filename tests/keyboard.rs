use smithay::keyboard::{
    serialize_pressed_keys, DefaultGrab, FilterResult, GrabStartData, KeyState, KeyUpdate,
    KeyboardEvent, KeyboardGrab, KeyboardHandle, KeyboardInnerHandle, KeysymHandle,
    ModifiersState,
};
use smithay::registry::{Registry, UserData};

const KEY_LEFTSHIFT: u32 = 42;
const KEY_A: u32 = 30;

struct Swallow;

impl KeyboardGrab for Swallow {
    fn input<H>(
        &mut self,
        _handle: &mut KeyboardInnerHandle<H>,
        _reg: &Registry,
        _keycode: u32,
        _key_state: KeyState,
        _modifiers: Option<(u32, u32, u32, u32)>,
        _serial: u32,
        _time: u32,
    ) {
    }

    fn set_focus<H>(&mut self, handle: &mut KeyboardInnerHandle<H>, reg: &Registry, focus: Option<u32>, serial: u32) {
        handle.set_focus(reg, focus, serial)
    }

    fn start_data(&self) -> GrabStartData {
        GrabStartData { focus: None }
    }
}

const KEYMAP: &str = "xkb_keymap { xkb_keycodes { include \"evdev\" }; };";

fn us<G: KeyboardGrab>() -> KeyboardHandle<G> {
    KeyboardHandle::new(KEYMAP.to_string(), 200, 25)
}

/// What a US keymap makes of a key that does not change the modifiers.
fn plain(keycode: u32, sym: u32) -> KeyUpdate {
    KeyUpdate {
        changed: false,
        modifiers: ModifiersState::default(),
        serialized: (0, 0, 0, 0),
        keysym: KeysymHandle::new(keycode + 8, sym, vec![sym], vec![sym]),
    }
}

/// Left shift: shift is the first modifier of the keymap.
fn shift(down: bool) -> KeyUpdate {
    let modifiers = ModifiersState { shift: down, ..ModifiersState::default() };
    KeyUpdate {
        changed: true,
        modifiers,
        serialized: (if down { 1 } else { 0 }, 0, 0, 0),
        keysym: KeysymHandle::new(KEY_LEFTSHIFT + 8, 0xffe1, vec![0xffe1], vec![0xffe1]),
    }
}

struct Scene {
    reg: Registry,
    surface: u32,
    kbd: u32,
}

fn scene() -> Scene {
    let mut reg = Registry::new();
    let c = reg.add_client();
    let surface = reg.create(c, 4, UserData::Plain);
    let kbd = reg.create(c, 7, UserData::Plain);
    Scene { reg, surface, kbd }
}

fn forward(_: &ModifiersState, _: KeysymHandle) -> FilterResult<()> {
    FilterResult::Forward
}

#[test]
fn pressed_keys_blob() {
    assert_eq!(serialize_pressed_keys(&vec![]), Vec::<u8>::new());
    assert_eq!(
        serialize_pressed_keys(&vec![30, 0x0102_0304]),
        vec![30, 0, 0, 0, 4, 3, 2, 1]
    );
    let keys = vec![42u32, 30, 65535];
    let blob = serialize_pressed_keys(&keys);
    assert_eq!(blob.len(), 4 * keys.len());
    let back: Vec<u32> = blob.chunks(4).map(|c| u32::from_le_bytes([c[0], c[1], c[2], c[3]])).collect();
    assert_eq!(back, keys);
}

#[test]
fn new_keyboard_gets_repeat_info() {
    let s = scene();
    let mut h = us::<DefaultGrab>();
    assert_eq!(h.keymap_string(), KEYMAP);
    h.new_kbd(&s.reg, s.kbd);
    assert_eq!(h.take_events(), vec![KeyboardEvent::RepeatInfo { keyboard: s.kbd, rate: 25, delay: 200 }]);
    let mut reg = s.reg;
    let old = reg.create(0, 3, UserData::Plain);
    h.new_kbd(&reg, old);
    assert!(h.take_events().is_empty());
    h.change_repeat_info(&reg, 30, 150);
    assert_eq!(h.take_events(), vec![KeyboardEvent::RepeatInfo { keyboard: s.kbd, rate: 30, delay: 150 }]);
}

#[test]
fn focus_then_shift() {
    let s = scene();
    let mut h = us::<DefaultGrab>();
    h.new_kbd(&s.reg, s.kbd);
    h.take_events();
    h.set_focus(&s.reg, Some(s.surface), 1);
    assert_eq!(
        h.take_events(),
        vec![
            KeyboardEvent::Enter { keyboard: s.kbd, serial: 1, surface: s.surface, keys: vec![] },
            KeyboardEvent::Modifiers { keyboard: s.kbd, serial: 1, mods: (0, 0, 0, 0) },
            KeyboardEvent::FocusChanged(Some(s.surface)),
        ]
    );
    let mut seen_shift = false;
    let r = h.input(&s.reg, KEY_LEFTSHIFT, KeyState::Pressed, 2, 100, shift(true), |m: &ModifiersState, k: KeysymHandle| {
        seen_shift = m.shift;
        assert_eq!(k.raw_code(), KEY_LEFTSHIFT + 8);
        FilterResult::<()>::Forward
    });
    assert!(r.is_none());
    assert!(seen_shift);
    assert!(h.modifiers_state().shift);
    let evs = h.take_events();
    assert_eq!(evs.len(), 2);
    assert_eq!(
        evs[0],
        KeyboardEvent::Key { keyboard: s.kbd, serial: 2, time: 100, key: KEY_LEFTSHIFT, state: KeyState::Pressed }
    );
    assert_eq!(evs[1], KeyboardEvent::Modifiers { keyboard: s.kbd, serial: 2, mods: (1, 0, 0, 0) });
    h.input(&s.reg, KEY_LEFTSHIFT, KeyState::Released, 3, 101, shift(false), forward);
    assert_eq!(
        h.take_events(),
        vec![
            KeyboardEvent::Key { keyboard: s.kbd, serial: 3, time: 101, key: KEY_LEFTSHIFT, state: KeyState::Released },
            KeyboardEvent::Modifiers { keyboard: s.kbd, serial: 3, mods: (0, 0, 0, 0) },
        ]
    );
    assert!(!h.modifiers_state().shift);
}

#[test]
fn enter_carries_pressed_keys() {
    let s = scene();
    let mut h = us::<DefaultGrab>();
    h.new_kbd(&s.reg, s.kbd);
    h.input(&s.reg, KEY_A, KeyState::Pressed, 1, 1, plain(KEY_A, 0x61), forward);
    h.take_events();
    h.set_focus(&s.reg, Some(s.surface), 2);
    let evs = h.take_events();
    assert_eq!(
        evs[0],
        KeyboardEvent::Enter { keyboard: s.kbd, serial: 2, surface: s.surface, keys: vec![30, 0, 0, 0] }
    );
    assert!(matches!(evs[1], KeyboardEvent::Modifiers { keyboard, serial: 2, .. } if keyboard == s.kbd));
}

#[test]
fn press_release_restores_pressed_keys() {
    let s = scene();
    let mut h = us::<DefaultGrab>();
    h.input(&s.reg, KEY_A, KeyState::Pressed, 1, 1, plain(KEY_A, 0x61), forward);
    let before = h.pressed_keys().clone();
    h.input(&s.reg, KEY_LEFTSHIFT, KeyState::Pressed, 2, 2, shift(true), forward);
    assert_eq!(*h.pressed_keys(), vec![KEY_A, KEY_LEFTSHIFT]);
    h.input(&s.reg, KEY_LEFTSHIFT, KeyState::Released, 3, 3, shift(false), forward);
    assert_eq!(*h.pressed_keys(), before);
}

#[test]
fn same_focus_twice_is_silent() {
    let s = scene();
    let mut h = us::<DefaultGrab>();
    h.new_kbd(&s.reg, s.kbd);
    h.set_focus(&s.reg, Some(s.surface), 1);
    h.take_events();
    h.set_focus(&s.reg, Some(s.surface), 2);
    assert!(h.take_events().is_empty());
}

#[test]
fn focus_moves_between_clients() {
    let mut s = scene();
    let other = s.reg.add_client();
    let surface2 = s.reg.create(other, 4, UserData::Plain);
    let kbd2 = s.reg.create(other, 3, UserData::Plain);
    let mut h = us::<DefaultGrab>();
    h.new_kbd(&s.reg, s.kbd);
    h.new_kbd(&s.reg, kbd2);
    h.set_focus(&s.reg, Some(s.surface), 1);
    h.take_events();
    assert!(h.has_focus(&s.reg, 0));
    h.set_focus(&s.reg, Some(surface2), 2);
    assert_eq!(
        h.take_events(),
        vec![
            KeyboardEvent::Leave { keyboard: s.kbd, serial: 2, surface: s.surface },
            KeyboardEvent::Enter { keyboard: kbd2, serial: 2, surface: surface2, keys: vec![] },
            KeyboardEvent::Modifiers { keyboard: kbd2, serial: 2, mods: (0, 0, 0, 0) },
            KeyboardEvent::FocusChanged(Some(surface2)),
        ]
    );
    assert_eq!(h.focused_client(&s.reg), Some(other));
    h.set_focus(&s.reg, None, 3);
    assert_eq!(
        h.take_events(),
        vec![
            KeyboardEvent::Leave { keyboard: kbd2, serial: 3, surface: surface2 },
            KeyboardEvent::FocusChanged(None),
        ]
    );
    assert!(!h.is_focused());
}

#[test]
fn filter_intercepts() {
    let s = scene();
    let mut h = us::<DefaultGrab>();
    h.new_kbd(&s.reg, s.kbd);
    h.set_focus(&s.reg, Some(s.surface), 1);
    h.take_events();
    let r = h.input(&s.reg, KEY_A, KeyState::Pressed, 2, 2, plain(KEY_A, 0x61), |_: &ModifiersState, _: KeysymHandle| {
        FilterResult::Intercept(7u8)
    });
    assert_eq!(r, Some(7));
    assert!(h.take_events().is_empty());
    assert_eq!(*h.pressed_keys(), vec![KEY_A]);
}

#[test]
fn grab_swallows_keys() {
    let s = scene();
    let mut h = us::<Swallow>();
    h.new_kbd(&s.reg, s.kbd);
    h.set_focus(&s.reg, Some(s.surface), 1);
    h.take_events();
    h.set_grab(Swallow, 5);
    assert!(h.has_grab(5));
    assert!(!h.has_grab(6));
    assert!(h.is_grabbed());
    let mut filtered = false;
    h.input(&s.reg, KEY_A, KeyState::Pressed, 2, 2, plain(KEY_A, 0x61), |_: &ModifiersState, _: KeysymHandle| {
        filtered = true;
        FilterResult::<()>::Forward
    });
    assert!(filtered);
    assert!(h.take_events().is_empty());
    assert!(h.is_grabbed());
    h.unset_grab();
    assert!(!h.is_grabbed());
    h.input(&s.reg, KEY_A, KeyState::Released, 3, 3, plain(KEY_A, 0x61), forward);
    assert_eq!(
        h.take_events(),
        vec![KeyboardEvent::Key { keyboard: s.kbd, serial: 3, time: 3, key: KEY_A, state: KeyState::Released }]
    );
}

#[test]
fn grab_on_dead_surface_is_dropped() {
    struct Pinned(u32);
    impl KeyboardGrab for Pinned {
        fn input<H>(&mut self, _: &mut KeyboardInnerHandle<H>, _: &Registry, _: u32, _: KeyState, _: Option<(u32, u32, u32, u32)>, _: u32, _: u32) {}
        fn set_focus<H>(&mut self, _: &mut KeyboardInnerHandle<H>, _: &Registry, _: Option<u32>, _: u32) {}
        fn start_data(&self) -> GrabStartData {
            GrabStartData { focus: Some(self.0) }
        }
    }
    let mut s = scene();
    let mut h = us::<Pinned>();
    h.new_kbd(&s.reg, s.kbd);
    h.set_focus(&s.reg, Some(s.surface), 1);
    h.take_events();
    h.set_grab(Pinned(s.surface), 4);
    assert_eq!(h.grab_start_data(), Some(GrabStartData { focus: Some(s.surface) }));
    h.input(&s.reg, KEY_A, KeyState::Pressed, 2, 2, plain(KEY_A, 0x61), forward);
    assert!(h.take_events().is_empty());
    s.reg.destroy(s.surface);
    h.input(&s.reg, KEY_A, KeyState::Released, 3, 3, plain(KEY_A, 0x61), forward);
    assert!(!h.is_grabbed());
}

#[test]
fn destroyed_keyboard_gets_nothing() {
    let s = scene();
    let mut h = us::<DefaultGrab>();
    h.new_kbd(&s.reg, s.kbd);
    h.kbd_destroyed(s.kbd);
    h.take_events();
    h.set_focus(&s.reg, Some(s.surface), 1);
    assert_eq!(h.take_events(), vec![KeyboardEvent::FocusChanged(Some(s.surface))]);
}

#[test]
fn no_focus_to_no_focus_is_silent() {
    let s = scene();
    let mut h = us::<DefaultGrab>();
    h.new_kbd(&s.reg, s.kbd);
    h.take_events();
    h.set_focus(&s.reg, None, 1);
    assert!(h.take_events().is_empty());
}

struct EndsOnKey;

impl KeyboardGrab for EndsOnKey {
    fn input<H>(&mut self, handle: &mut KeyboardInnerHandle<H>, reg: &Registry, _: u32, _: KeyState, _: Option<(u32, u32, u32, u32)>, serial: u32, _: u32) {
        handle.unset_grab(reg, serial, true);
    }
    fn set_focus<H>(&mut self, _: &mut KeyboardInnerHandle<H>, _: &Registry, _: Option<u32>, _: u32) {}
    fn start_data(&self) -> GrabStartData {
        GrabStartData { focus: None }
    }
}

#[test]
fn ended_grab_restores_requested_focus() {
    let s = scene();
    let mut h = us::<EndsOnKey>();
    h.new_kbd(&s.reg, s.kbd);
    h.take_events();
    h.set_grab(EndsOnKey, 9);
    // the grab keeps the focus from changing, but the request is remembered
    h.set_focus(&s.reg, Some(s.surface), 1);
    assert!(h.take_events().is_empty());
    assert!(h.has_grab(9));
    assert_eq!(h.current_focus(), None);
    // the grab ends itself and restores the requested focus
    h.input(&s.reg, KEY_A, KeyState::Pressed, 2, 2, plain(KEY_A, 0x61), forward);
    assert!(!h.is_grabbed());
    assert_eq!(
        h.take_events(),
        vec![
            KeyboardEvent::Enter { keyboard: s.kbd, serial: 2, surface: s.surface, keys: vec![30, 0, 0, 0] },
            KeyboardEvent::Modifiers { keyboard: s.kbd, serial: 2, mods: (0, 0, 0, 0) },
            KeyboardEvent::FocusChanged(Some(s.surface)),
        ]
    );
}
