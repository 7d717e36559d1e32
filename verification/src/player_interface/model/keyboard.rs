use crate::player_interface::model::game_action::GameActions;
use crate::util::reversed;
use vstd::prelude::*;

verus! {

/// The physical keys of a keyboard, named as the UI Events specification of the W3C
/// names their codes.
#[derive(Debug, Clone, Copy, Hash, Eq, PartialEq, Structural)]
pub enum KeyCode {
    Backquote,
    Backslash,
    BracketLeft,
    BracketRight,
    Comma,
    Digit0,
    Digit1,
    Digit2,
    Digit3,
    Digit4,
    Digit5,
    Digit6,
    Digit7,
    Digit8,
    Digit9,
    Equal,
    IntlBackslash,
    IntlRo,
    IntlYen,
    KeyA,
    KeyB,
    KeyC,
    KeyD,
    KeyE,
    KeyF,
    KeyG,
    KeyH,
    KeyI,
    KeyJ,
    KeyK,
    KeyL,
    KeyM,
    KeyN,
    KeyO,
    KeyP,
    KeyQ,
    KeyR,
    KeyS,
    KeyT,
    KeyU,
    KeyV,
    KeyW,
    KeyX,
    KeyY,
    KeyZ,
    Minus,
    Period,
    Quote,
    Semicolon,
    Slash,
    AltLeft,
    AltRight,
    Backspace,
    CapsLock,
    ContextMenu,
    ControlLeft,
    ControlRight,
    Enter,
    MetaLeft,
    MetaRight,
    ShiftLeft,
    ShiftRight,
    Space,
    Tab,
    Convert,
    KanaMode,
    Lang1,
    Lang2,
    Lang3,
    Lang4,
    Lang5,
    NonConvert,
    Delete,
    End,
    Help,
    Home,
    Insert,
    PageDown,
    PageUp,
    ArrowDown,
    ArrowLeft,
    ArrowRight,
    ArrowUp,
    NumLock,
    Numpad0,
    Numpad1,
    Numpad2,
    Numpad3,
    Numpad4,
    Numpad5,
    Numpad6,
    Numpad7,
    Numpad8,
    Numpad9,
    NumpadAdd,
    NumpadBackspace,
    NumpadClear,
    NumpadClearEntry,
    NumpadComma,
    NumpadDecimal,
    NumpadDivide,
    NumpadEnter,
    NumpadEqual,
    NumpadHash,
    NumpadMemoryAdd,
    NumpadMemoryClear,
    NumpadMemoryRecall,
    NumpadMemoryStore,
    NumpadMemorySubtract,
    NumpadMultiply,
    NumpadParenLeft,
    NumpadParenRight,
    NumpadStar,
    NumpadSubtract,
    Escape,
    F1,
    F2,
    F3,
    F4,
    F5,
    F6,
    F7,
    F8,
    F9,
    F10,
    F11,
    F12,
    Fn,
    FnLock,
    PrintScreen,
    ScrollLock,
    Pause,
    BrowserBack,
    BrowserFavorites,
    BrowserForward,
    BrowserHome,
    BrowserRefresh,
    BrowserSearch,
    BrowserStop,
    Eject,
    LaunchApp1,
    LaunchApp2,
    LaunchMail,
    MediaPlayPause,
    MediaSelect,
    MediaStop,
    MediaTrackNext,
    MediaTrackPrevious,
    Power,
    Sleep,
    AudioVolumeDown,
    AudioVolumeMute,
    AudioVolumeUp,
    WakeUp,
    Hyper,
    Super,
    Turbo,
    Abort,
    Resume,
    Suspend,
    Again,
    Copy,
    Cut,
    Find,
    Open,
    Paste,
    Props,
    Select,
    Undo,
    Hiragana,
    Katakana,
}

/// The index of the last binding of `key`.
pub open spec fn find_binding<GA>(bindings: Seq<(KeyCode, Vec<GA>)>, key: KeyCode, upto: int) -> Option<int>
    decreases upto,
{
    if upto <= 0 || upto > bindings.len() {
        None
    } else if bindings[upto - 1].0 == key {
        Some(upto - 1)
    } else {
        find_binding(bindings, key, upto - 1)
    }
}

/// The actions that a list of bindings gives a key: those of the last binding of the
/// key, as in a map that was filled with the bindings one after the other.
pub open spec fn bound_actions<GA>(bindings: Seq<(KeyCode, Vec<GA>)>, key: KeyCode) -> Option<Vec<GA>> {
    match find_binding(bindings, key, bindings.len() as int) {
        Some(i) => Some(bindings[i].1),
        None => None,
    }
}

/// The map that a list of bindings makes when it is filled with them one after the
/// other: each key with the actions of its last binding.
pub open spec fn bindings_map<GA>(bindings: Seq<(KeyCode, Vec<GA>)>) -> Map<KeyCode, Vec<GA>> {
    Map::new(
        |key: KeyCode| bound_actions(bindings, key) is Some,
        |key: KeyCode| bound_actions(bindings, key)->0,
    )
}

/// Whether no key is bound twice.
pub open spec fn distinct_keys<GA>(bindings: Seq<(KeyCode, Vec<GA>)>) -> bool {
    forall|i: int, j: int|
        0 <= i < j < bindings.len() ==> (#[trigger] bindings[i]).0 != (#[trigger] bindings[j]).0
}

/// A binding that is found lies in the list and is of the key looked for.
proof fn lemma_find_binding_bounds<GA>(bindings: Seq<(KeyCode, Vec<GA>)>, key: KeyCode, upto: int)
    ensures
        find_binding(bindings, key, upto) matches Some(i) ==> 0 <= i < upto && i < bindings.len()
            && bindings[i].0 == key,
    decreases upto,
{
    if 0 < upto <= bindings.len() && bindings[upto - 1].0 != key {
        lemma_find_binding_bounds(bindings, key, upto - 1);
    }
}

/// Where no key is bound twice, the binding of a key is the one that is found.
proof fn lemma_find_binding_unique<GA>(bindings: Seq<(KeyCode, Vec<GA>)>, key: KeyCode, at: int, upto: int)
    requires
        distinct_keys(bindings),
        0 <= at < upto <= bindings.len(),
        bindings[at].0 == key,
    ensures
        find_binding(bindings, key, upto) == Some(at),
    decreases upto,
{
    if bindings[upto - 1].0 == key {
        if at != upto - 1 {
            assert(bindings[at].0 != bindings[upto - 1].0);
        }
    } else {
        lemma_find_binding_unique(bindings, key, at, upto - 1);
    }
}

/// Lists that make the same map give a key the same actions.
proof fn lemma_same_map_same_binding<GA>(
    a: Seq<(KeyCode, Vec<GA>)>,
    b: Seq<(KeyCode, Vec<GA>)>,
    key: KeyCode,
)
    requires
        bindings_map(a) == bindings_map(b),
    ensures
        bound_actions(a, key) == bound_actions(b, key),
{
    assert(bindings_map(a).contains_key(key) == (bound_actions(a, key) is Some));
    assert(bindings_map(b).contains_key(key) == (bound_actions(b, key) is Some));
    if bound_actions(a, key) is Some {
        assert(bindings_map(a)[key] == bound_actions(a, key)->0);
        assert(bindings_map(b)[key] == bound_actions(b, key)->0);
    }
}

/// A binding that is added at the end is the binding of its key, and leaves the other
/// keys with the actions that they had.
proof fn lemma_bound_after_push<GA>(
    bindings: Seq<(KeyCode, Vec<GA>)>,
    added: (KeyCode, Vec<GA>),
    key: KeyCode,
)
    ensures
        bound_actions(bindings.push(added), key) == if key == added.0 {
            Some(added.1)
        } else {
            bound_actions(bindings, key)
        },
{
    let longer = bindings.push(added);
    assert(longer[longer.len() - 1] == added);
    if key != added.0 {
        assert(find_binding(longer, key, longer.len() as int) == find_binding(
            longer,
            key,
            longer.len() - 1,
        ));
        lemma_find_binding_prefix(bindings, added, key, bindings.len() as int);
        lemma_find_binding_bounds(bindings, key, bindings.len() as int);
        if find_binding(bindings, key, bindings.len() as int) is Some {
            let i = find_binding(bindings, key, bindings.len() as int)->0;
            assert(longer[i] == bindings[i]);
        }
    }
}

/// A binding that is added at the end changes nothing before it.
proof fn lemma_find_binding_prefix<GA>(
    bindings: Seq<(KeyCode, Vec<GA>)>,
    added: (KeyCode, Vec<GA>),
    key: KeyCode,
    upto: int,
)
    requires
        upto <= bindings.len(),
    ensures
        find_binding(bindings.push(added), key, upto) == find_binding(bindings, key, upto),
    decreases upto,
{
    if 0 < upto {
        assert(bindings.push(added)[upto - 1] == bindings[upto - 1]);
        if bindings[upto - 1].0 != key {
            lemma_find_binding_prefix(bindings, added, key, upto - 1);
        }
    }
}

/// Lists with the same keys bind a key at the same place.
proof fn lemma_find_binding_same_keys<GA>(
    a: Seq<(KeyCode, Vec<GA>)>,
    b: Seq<(KeyCode, Vec<GA>)>,
    key: KeyCode,
    upto: int,
)
    requires
        a.len() == b.len(),
        upto <= a.len(),
        forall|j: int| 0 <= j < a.len() ==> (#[trigger] a[j]).0 == b[j].0,
    ensures
        find_binding(a, key, upto) == find_binding(b, key, upto),
    decreases upto,
{
    if 0 < upto {
        assert(a[upto - 1].0 == b[upto - 1].0);
        if a[upto - 1].0 != key {
            lemma_find_binding_same_keys(a, b, key, upto - 1);
        }
    }
}

/// Binding a key anew leaves the bindings of the other keys where they are found.
proof fn lemma_find_binding_rebound<GA>(
    bindings: Seq<(KeyCode, Vec<GA>)>,
    at: int,
    actions: Vec<GA>,
    other: KeyCode,
    upto: int,
)
    requires
        0 <= at < bindings.len(),
        bindings[at].0 != other,
        upto <= bindings.len(),
    ensures
        find_binding(bindings.update(at, (bindings[at].0, actions)), other, upto) == find_binding(
            bindings,
            other,
            upto,
        ),
    decreases upto,
{
    let rebound = bindings.update(at, (bindings[at].0, actions));
    if 0 < upto {
        assert(rebound[upto - 1].0 == bindings[upto - 1].0);
        if bindings[upto - 1].0 != other {
            lemma_find_binding_rebound(bindings, at, actions, other, upto - 1);
        }
    }
}

/// Which actions of the game each key stands for: a map from keys to actions. The
/// actions are the game's own. The bindings are kept as a list in which no key occurs
/// twice.
#[derive(Debug)]
pub struct KeyboardConfig<GA> where GA: GameActions {
    bindings: Vec<(KeyCode, Vec<GA>)>,
}

impl<GA> Clone for KeyboardConfig<GA> where GA: GameActions {
    /// A configuration that binds the same keys, each to copies of its actions.
    fn clone(&self) -> (r: KeyboardConfig<GA>)
        ensures
            r@.dom() == self@.dom(),
    {
        proof {
            use_type_invariant(self);
        }
        let mut kept: Vec<(KeyCode, Vec<GA>)> = Vec::new();
        let mut i: usize = 0;
        while i < self.bindings.len()
            invariant
                i <= self.bindings.len(),
                kept@.len() == i,
                forall|j: int| 0 <= j < i ==> (#[trigger] kept@[j]).0 == self.bindings@[j].0,
            decreases self.bindings.len() - i,
        {
            kept.push((self.bindings[i].0, self.bindings[i].1.clone()));
            i += 1;
        }
        proof {
            assert forall|key: KeyCode|
                (bound_actions(kept@, key) is Some) == (bound_actions(
                    self.bindings@,
                    key,
                ) is Some) by {
                lemma_find_binding_same_keys(kept@, self.bindings@, key, i as int);
            }
            assert(bindings_map(kept@).dom() =~= bindings_map(self.bindings@).dom());
        }
        KeyboardConfig { bindings: kept }
    }
}

impl<GA> View for KeyboardConfig<GA> where GA: GameActions {
    type V = Map<KeyCode, Vec<GA>>;

    closed spec fn view(&self) -> Map<KeyCode, Vec<GA>> {
        bindings_map(self.bindings@)
    }
}

impl<GA> KeyboardConfig<GA> where GA: GameActions {
    /// No key is bound twice.
    #[verifier::type_invariant]
    spec fn keys_are_distinct(self) -> bool {
        distinct_keys(self.bindings@)
    }

    /// The index of the binding of `key`.
    fn position(bindings: &Vec<(KeyCode, Vec<GA>)>, key: &KeyCode) -> (r: Option<usize>)
        ensures
            match r {
                Some(i) => i < bindings.len() && bindings[i as int].0 == *key,
                None => forall|j: int| 0 <= j < bindings.len() ==> (#[trigger] bindings[j]).0 != *key,
            },
    {
        let mut i: usize = 0;
        while i < bindings.len()
            invariant
                i <= bindings.len(),
                forall|j: int| 0 <= j < i ==> (#[trigger] bindings[j]).0 != *key,
            decreases bindings.len() - i,
        {
            if bindings[i].0 == *key {
                return Some(i);
            }
            i += 1;
        }
        None
    }

    /// The configuration that binds the keys as a map does that is filled with
    /// `bindings` one after the other: where a key comes more than once, its last
    /// binding counts.
    pub fn new(bindings: Vec<(KeyCode, Vec<GA>)>) -> (config: KeyboardConfig<GA>)
        ensures
            config@ == bindings_map(bindings@),
    {
        let n = bindings.len();
        let mut stack = reversed(bindings);
        let mut kept: Vec<(KeyCode, Vec<GA>)> = Vec::new();
        let mut i: usize = 0;
        assert(bindings_map(kept@) =~= bindings_map(bindings@.take(0)));
        while i < n
            invariant
                i <= n,
                n == bindings@.len(),
                stack@.len() == n - i,
                forall|j: int| 0 <= j < stack@.len() ==> stack@[j] == bindings@[n - 1 - j],
                distinct_keys(kept@),
                bindings_map(kept@) == bindings_map(bindings@.take(i as int)),
            decreases n - i,
        {
            let binding = stack.pop().unwrap();
            assert(binding == bindings@[i as int]);
            let ghost before = kept@;
            let ghost read = bindings@.take(i as int);
            let ghost longer = bindings@.take(i + 1);
            assert(longer =~= read.push(binding));
            match Self::position(&kept, &binding.0) {
                Some(at) => {
                    let ghost key = binding.0;
                    kept[at] = binding;
                    proof {
                        assert(before[at as int].0 == key);
                        assert(kept@ =~= before.update(at as int, (before[at as int].0, binding.1)));
                        assert forall|other: KeyCode|
                            bound_actions(kept@, other) == bound_actions(longer, other) by {
                            lemma_bound_after_push(read, binding, other);
                            if other == key {
                                lemma_find_binding_unique(kept@, other, at as int, kept@.len() as int);
                            } else {
                                lemma_find_binding_rebound(
                                    before,
                                    at as int,
                                    binding.1,
                                    other,
                                    before.len() as int,
                                );
                                lemma_find_binding_bounds(before, other, before.len() as int);
                                lemma_same_map_same_binding(before, read, other);
                            }
                        }
                    }
                },
                None => {
                    let ghost key = binding.0;
                    kept.push(binding);
                    proof {
                        assert(kept@ =~= before.push(binding));
                        assert forall|other: KeyCode|
                            bound_actions(kept@, other) == bound_actions(longer, other) by {
                            lemma_bound_after_push(read, binding, other);
                            lemma_bound_after_push(before, binding, other);
                            lemma_same_map_same_binding(before, read, other);
                        }
                    }
                },
            }
            assert(bindings_map(kept@) =~= bindings_map(longer));
            i += 1;
        }
        assert(bindings@.take(n as int) =~= bindings@);
        KeyboardConfig { bindings: kept }
    }

    /// The bindings as a list: each key that is bound, once, with its actions.
    pub fn bindings(&self) -> (bindings: &Vec<(KeyCode, Vec<GA>)>)
        ensures
            bindings_map(bindings@) == self@,
            distinct_keys(bindings@),
    {
        proof {
            use_type_invariant(self);
        }
        &self.bindings
    }

    /// The actions bound to `key_code`, if it is bound.
    pub fn get_actions(&self, key_code: &KeyCode) -> (actions: Option<&Vec<GA>>)
        ensures
            match actions {
                Some(list) => self@.contains_key(*key_code) && self@[*key_code] == *list,
                None => !self@.contains_key(*key_code),
            },
    {
        proof {
            use_type_invariant(self);
        }
        match Self::position(&self.bindings, key_code) {
            Some(at) => {
                proof {
                    lemma_find_binding_unique(
                        self.bindings@,
                        *key_code,
                        at as int,
                        self.bindings@.len() as int,
                    );
                }
                Some(&self.bindings[at].1)
            },
            None => {
                proof {
                    lemma_find_binding_bounds(
                        self.bindings@,
                        *key_code,
                        self.bindings@.len() as int,
                    );
                }
                None
            },
        }
    }
}

/// What happened to a key.
#[derive(Debug, Clone, Copy)]
pub enum KeyEvent {
    Press,
    Release,
}

/// A key, and what happened to it.
#[derive(Debug, Clone)]
pub struct KeyboardEvent {
    pub key_code: KeyCode,
    pub event: KeyEvent,
}

/// A keyboard event, and how long after the event before it came.
#[derive(Debug, Clone)]
pub struct KeyboardEventTimed {
    pub timestamp_delta: u64,
    pub event: KeyboardEvent,
}

/// A run of keyboard events from a point in time on.
#[derive(Debug, Clone)]
pub struct KeyboardTimeline {
    pub timestamp_initial: u64,
    pub events: Vec<KeyboardEventTimed>,
}

} // verus!
