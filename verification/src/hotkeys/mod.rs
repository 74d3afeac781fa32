//! Hotkey handling: key bindings, their Windows encoding, and the keyboard
//! state that tracks held modifiers and finds the bindings a key press fires.
use vstd::prelude::*;

pub mod keys;
pub mod linux;
pub mod qcode;

pub use self::keys::Key;

verus! {

/// Modifier keys, as Windows' `RegisterHotKey` knows them.
#[derive(Debug, Clone, Copy, PartialEq, Eq, Structural, Hash)]
pub enum Modifier {
    Alt,
    Ctrl,
    Shift,
    Win,
}

/// The bit Windows uses for "do not repeat while held".
pub const NOREPEAT: u32 = 0x4000;

impl Modifier {
    /// The flag Windows uses for this modifier.
    pub open spec fn spec_bits(self) -> u32 {
        match self {
            Modifier::Alt => 0x0001,
            Modifier::Ctrl => 0x0002,
            Modifier::Shift => 0x0004,
            Modifier::Win => 0x0008,
        }
    }

    pub fn bits(&self) -> (r: u32)
        ensures
            r == self.spec_bits(),
    {
        match self {
            Modifier::Alt => 0x0001,
            Modifier::Ctrl => 0x0002,
            Modifier::Shift => 0x0004,
            Modifier::Win => 0x0008,
        }
    }
}

/// The modifier a key acts as, if any.
pub open spec fn spec_modifier(k: Key) -> Option<Modifier> {
    match k {
        Key::LMenu | Key::RMenu => Some(Modifier::Alt),
        Key::LControlKey | Key::RControlKey => Some(Modifier::Ctrl),
        Key::LShiftKey | Key::RShiftKey => Some(Modifier::Shift),
        Key::LWin | Key::RWin => Some(Modifier::Win),
        _ => None,
    }
}

impl Key {
    /// The modifier this key acts as, if any.
    pub fn modifier(&self) -> (r: Option<Modifier>)
        ensures
            r == spec_modifier(*self),
    {
        match *self {
            Key::LMenu | Key::RMenu => Some(Modifier::Alt),
            Key::LControlKey | Key::RControlKey => Some(Modifier::Ctrl),
            Key::LShiftKey | Key::RShiftKey => Some(Modifier::Shift),
            Key::LWin | Key::RWin => Some(Modifier::Win),
            _ => None,
        }
    }
}

/// A key combination: modifiers that must be held, and the key.
#[derive(Debug, Clone, PartialEq, Eq)]
pub struct KeyBinding {
    modifiers: Vec<Modifier>,
    no_repeat: bool,
    key: Key,
}

/// The mathematical content of a key binding.
#[verifier::ext_equal]
pub struct KeyBindingView {
    pub modifiers: Seq<Modifier>,
    pub no_repeat: bool,
    pub key: Key,
}

impl View for KeyBinding {
    type V = KeyBindingView;

    closed spec fn view(&self) -> KeyBindingView {
        KeyBindingView { modifiers: self.modifiers@, no_repeat: self.no_repeat, key: self.key }
    }
}

/// Whether a binding fires for `key` while `held` modifiers are down:
/// the key is the binding's and each of its modifiers is held.
pub open spec fn binding_matches(b: KeyBindingView, held: Seq<Modifier>, key: Key) -> bool {
    &&& key == b.key
    &&& forall|i: int| 0 <= i < b.modifiers.len() ==> held.contains(#[trigger] b.modifiers[i])
}

/// ORs the flags of all modifiers into `acc`, first to last.
pub open spec fn fold_modifier_bits(mods: Seq<Modifier>, acc: u32) -> u32
    decreases mods.len(),
{
    if mods.len() == 0 {
        acc
    } else {
        fold_modifier_bits(mods.drop_first(), acc | mods[0].spec_bits())
    }
}

/// The pair `RegisterHotKey` takes for a binding: modifier flags and key code.
pub open spec fn spec_to_windows(b: KeyBindingView) -> (u32, u32) {
    (fold_modifier_bits(b.modifiers, if b.no_repeat { NOREPEAT } else { 0 }), b.key.spec_code())
}

impl KeyBinding {
    pub fn new(modifiers: Vec<Modifier>, key: Key, no_repeat: bool) -> (r: KeyBinding)
        ensures
            r@.modifiers == modifiers@,
            r@.key == key,
            r@.no_repeat == no_repeat,
    {
        KeyBinding { modifiers, no_repeat, key }
    }

    /// Whether this binding fires for `key` while `modifiers` are held.
    pub fn matches(&self, modifiers: &[Modifier], key: Key) -> (r: bool)
        ensures
            r == binding_matches(self@, modifiers@, key),
    {
        if key != self.key {
            return false;
        }
        let n = self.modifiers.len();
        let mut i: usize = 0;
        while i < n
            invariant
                n == self.modifiers@.len(),
                i <= n,
                forall|j: int| 0 <= j < i ==> modifiers@.contains(#[trigger] self.modifiers@[j]),
            decreases n - i,
        {
            let m = self.modifiers[i];
            let mut found = false;
            let mut j: usize = 0;
            while j < modifiers.len()
                invariant
                    j <= modifiers@.len(),
                    found <==> exists|k: int| 0 <= k < j && modifiers@[k] == m,
                decreases modifiers@.len() - j,
            {
                if modifiers[j] == m {
                    found = true;
                }
                j = j + 1;
            }
            if !found {
                assert(!modifiers@.contains(self.modifiers@[i as int]));
                assert(!binding_matches(self@, modifiers@, key)) by {
                    assert(self@.modifiers[i as int] == self.modifiers@[i as int]);
                }
                return false;
            }
            i = i + 1;
        }
        true
    }

    /// The modifier flags and key code to register this binding with Windows.
    pub fn to_windows(&self) -> (r: (u32, u32))
        ensures
            r == spec_to_windows(self@),
    {
        let mut acc: u32 = if self.no_repeat { NOREPEAT } else { 0 };
        let n = self.modifiers.len();
        let mut i: usize = 0;
        assert(self.modifiers@.subrange(0, n as int) =~= self.modifiers@);
        while i < n
            invariant
                n == self.modifiers@.len(),
                i <= n,
                fold_modifier_bits(self.modifiers@, if self.no_repeat { NOREPEAT } else { 0 })
                    == fold_modifier_bits(self.modifiers@.subrange(i as int, n as int), acc),
            decreases n - i,
        {
            assert(self.modifiers@.subrange(i as int, n as int).drop_first()
                =~= self.modifiers@.subrange(i + 1, n as int));
            acc = acc | self.modifiers[i].bits();
            i = i + 1;
        }
        assert(self.modifiers@.subrange(n as int, n as int).len() == 0);
        (acc, self.key.code())
    }
}

/// The first position of `m` in `s`, if it occurs.
pub open spec fn first_index(s: Seq<Modifier>, m: Modifier) -> Option<int>
    decreases s.len(),
{
    if s.len() == 0 {
        None
    } else if s[0] == m {
        Some(0)
    } else {
        match first_index(s.drop_first(), m) {
            Some(i) => Some(i + 1),
            None => None,
        }
    }
}

/// The held modifiers after `m` goes down: it is added unless already held.
pub open spec fn press_modifier(held: Seq<Modifier>, m: Modifier) -> Seq<Modifier> {
    if held.contains(m) { held } else { held.push(m) }
}

/// The held modifiers after `m` goes up: its first occurrence is swap-removed
/// (replaced by the last entry, which is then dropped).
pub open spec fn release_modifier(held: Seq<Modifier>, m: Modifier) -> Seq<Modifier> {
    match first_index(held, m) {
        Some(i) => held.update(i, held.last()).drop_last(),
        None => held,
    }
}

/// Indices, in increasing order, of the first `n` bindings that fire.
pub open spec fn matching_bindings(bindings: Seq<KeyBindingView>, held: Seq<Modifier>, key: Key, n: nat) -> Seq<usize>
    decreases n,
{
    if n == 0 {
        Seq::empty()
    } else {
        let prev = matching_bindings(bindings, held, key, (n - 1) as nat);
        if binding_matches(bindings[n - 1], held, key) {
            prev.push((n - 1) as usize)
        } else {
            prev
        }
    }
}

/// Tracks the modifiers currently held and the configured bindings.
pub struct KeyboardState<'a> {
    modifiers: Vec<Modifier>,
    bindings: &'a [KeyBinding],
}

/// The mathematical content of a keyboard state.
#[verifier::ext_equal]
pub struct KeyboardStateView {
    pub modifiers: Seq<Modifier>,
    pub bindings: Seq<KeyBindingView>,
}

impl<'a> View for KeyboardState<'a> {
    type V = KeyboardStateView;

    closed spec fn view(&self) -> KeyboardStateView {
        KeyboardStateView {
            modifiers: self.modifiers@,
            bindings: self.bindings@.map_values(|b: KeyBinding| b@),
        }
    }
}

/// What one key event does to the keyboard state and which bindings it fires.
pub open spec fn spec_input_linux(s: KeyboardStateView, code: u32, down: bool)
    -> Option<(KeyboardStateView, Seq<usize>, Seq<char>)>
{
    match linux::spec_key_convert(code) {
        None => None,
        Some(k) => {
            let q = qcode::spec_key_convert(k);
            match spec_modifier(k) {
                Some(m) => {
                    let held = if down { press_modifier(s.modifiers, m) } else { release_modifier(s.modifiers, m) };
                    Some((KeyboardStateView { modifiers: held, bindings: s.bindings }, Seq::empty(), q))
                },
                None => {
                    let fired = if down {
                        matching_bindings(s.bindings, s.modifiers, k, s.bindings.len())
                    } else {
                        Seq::empty()
                    };
                    Some((s, fired, q))
                },
            }
        },
    }
}

impl<'a> KeyboardState<'a> {
    pub fn new(bindings: &'a [KeyBinding]) -> (r: KeyboardState<'a>)
        ensures
            r@.modifiers.len() == 0,
            r@.bindings == bindings@.map_values(|b: KeyBinding| b@),
    {
        KeyboardState { modifiers: Vec::new(), bindings }
    }

    /// Handles a Linux key event: tracks modifiers, and on a non-modifier key
    /// press reports which bindings fire. Also gives the key's QEMU name.
    /// Unknown key codes are ignored.
    pub fn input_linux(&mut self, code: u32, down: bool) -> (r: Option<(Vec<usize>, &'static str)>)
        ensures
            match spec_input_linux(old(self)@, code, down) {
                None => r is None && final(self)@ == old(self)@,
                Some((s, fired, q)) => r is Some && final(self)@ == s && (r->0).0@ == fired && (r->0).1@ == q,
            },
    {
        match linux::key_convert(code) {
            None => None,
            Some(k) => {
                let mut fired: Vec<usize> = Vec::new();
                let ghost old_mods = self.modifiers@;
                match k.modifier() {
                    Some(m) => {
                        if down {
                            if !self.contains_modifier(m) {
                                self.modifiers.push(m);
                            }
                        } else {
                            match self.position_of(m) {
                                Some(i) => {
                                    assert(first_index(old_mods, m) == Some(i as int));
                                    self.modifiers.swap_remove(i);
                                    assert(self.modifiers@ =~= old_mods.update(i as int, old_mods.last()).drop_last());
                                    assert(self.modifiers@ =~= release_modifier(old_mods, m));
                                }
                                None => {
                                    assert(self.modifiers@ =~= release_modifier(old_mods, m));
                                }
                            }
                        }
                    }
                    None => {
                        if down {
                            let n = self.bindings.len();
                            let mut i: usize = 0;
                            while i < n
                                invariant
                                    n == self.bindings@.len(),
                                    i <= n,
                                    fired@ == matching_bindings(self@.bindings, self@.modifiers, k, i as nat),
                                decreases n - i,
                            {
                                assert(self@.bindings[i as int] == self.bindings@[i as int]@);
                                if self.bindings[i].matches(self.modifiers.as_slice(), k) {
                                    fired.push(i);
                                }
                                i = i + 1;
                            }
                        }
                    }
                }
                let q = qcode::key_convert(k);
                assert(self@.bindings =~= old(self)@.bindings);
                proof {
                    match spec_modifier(k) {
                        Some(m) => {
                            if down {
                                assert(self@.modifiers =~= press_modifier(old(self)@.modifiers, m));
                            } else {
                                assert(self@.modifiers =~= release_modifier(old(self)@.modifiers, m));
                            }
                            assert(fired@ =~= Seq::<usize>::empty());
                        }
                        None => {
                            assert(self@.modifiers =~= old(self)@.modifiers);
                            if !down {
                                assert(fired@ =~= Seq::<usize>::empty());
                            }
                        }
                    }
                }
                Some((fired, q))
            }
        }
    }

    fn contains_modifier(&self, m: Modifier) -> (r: bool)
        ensures
            r == self.modifiers@.contains(m),
    {
        let mut j: usize = 0;
        while j < self.modifiers.len()
            invariant
                j <= self.modifiers@.len(),
                forall|k: int| 0 <= k < j ==> self.modifiers@[k] != m,
            decreases self.modifiers@.len() - j,
        {
            if self.modifiers[j] == m {
                return true;
            }
            j = j + 1;
        }
        false
    }

    fn position_of(&self, m: Modifier) -> (r: Option<usize>)
        ensures
            r is Some <==> first_index(self.modifiers@, m) is Some,
            r is Some ==> first_index(self.modifiers@, m) == Some(r->0 as int) && r->0 < self.modifiers@.len(),
    {
        let n = self.modifiers.len();
        let mut j: usize = 0;
        while j < n
            invariant
                n == self.modifiers@.len(),
                j <= n,
                forall|k: int| 0 <= k < j ==> self.modifiers@[k] != m,
            decreases n - j,
        {
            if self.modifiers[j] == m {
                proof { lemma_first_index_at(self.modifiers@, m, j as int); }
                return Some(j);
            }
            j = j + 1;
        }
        proof { lemma_first_index_none(self.modifiers@, m); }
        None
    }
}

proof fn lemma_first_index_props(s: Seq<Modifier>, m: Modifier)
    ensures
        first_index(s, m) is Some <==> s.contains(m),
        first_index(s, m) matches Some(i) ==> 0 <= i < s.len() && s[i] == m,
    decreases s.len(),
{
    if s.len() > 0 {
        lemma_first_index_props(s.drop_first(), m);
        if s[0] != m && s.drop_first().contains(m) {
            let j = choose|j: int| 0 <= j < s.drop_first().len() && s.drop_first()[j] == m;
            assert(s[j + 1] == m);
        }
        if s.contains(m) && s[0] != m {
            let j = choose|j: int| 0 <= j < s.len() && s[j] == m;
            assert(s.drop_first()[j - 1] == m);
        }
    }
}

/// Held modifiers never repeat: a key event keeps them distinct.
pub proof fn law_held_modifiers_distinct(s: KeyboardStateView, code: u32, down: bool)
    requires
        s.modifiers.no_duplicates(),
        spec_input_linux(s, code, down) is Some,
    ensures
        (spec_input_linux(s, code, down)->0).0.modifiers.no_duplicates(),
{
    let k = linux::spec_key_convert(code)->0;
    if let Some(m) = spec_modifier(k) {
        let h = s.modifiers;
        lemma_first_index_props(h, m);
        if down {
            if !h.contains(m) {
                let t = h.push(m);
                assert forall|a: int, b: int| 0 <= a < t.len() && 0 <= b < t.len() && a != b implies t[a] != t[b] by {
                    if a < h.len() && b < h.len() {
                    } else if a == h.len() {
                        assert(t[b] == h[b]);
                    } else {
                        assert(t[a] == h[a]);
                    }
                }
            }
        } else {
            if let Some(i) = first_index(h, m) {
                let t = h.update(i, h.last()).drop_last();
                assert forall|a: int, b: int| 0 <= a < t.len() && 0 <= b < t.len() && a != b implies t[a] != t[b] by {
                    assert(t[a] == (if a == i { h[h.len() - 1] } else { h[a] }));
                    assert(t[b] == (if b == i { h[h.len() - 1] } else { h[b] }));
                }
            }
        }
    }
}

/// Tapping a modifier that was not held (down, then up) leaves the held
/// modifiers exactly as they were.
pub proof fn law_modifier_tap_restores(held: Seq<Modifier>, m: Modifier)
    requires
        !held.contains(m),
    ensures
        release_modifier(press_modifier(held, m), m) == held,
{
    let t = held.push(m);
    lemma_first_index_props(held, m);
    lemma_first_index_at(t, m, held.len() as int);
    assert(t.update(held.len() as int, t.last()).drop_last() =~= held);
}

proof fn lemma_first_index_at(s: Seq<Modifier>, m: Modifier, j: int)
    requires
        0 <= j < s.len(),
        s[j] == m,
        forall|k: int| 0 <= k < j ==> s[k] != m,
    ensures
        first_index(s, m) == Some(j),
    decreases j,
{
    if j > 0 {
        lemma_first_index_at(s.drop_first(), m, j - 1);
    }
}

proof fn lemma_first_index_none(s: Seq<Modifier>, m: Modifier)
    requires
        forall|k: int| 0 <= k < s.len() ==> s[k] != m,
    ensures
        first_index(s, m) is None,
    decreases s.len(),
{
    if s.len() > 0 {
        lemma_first_index_none(s.drop_first(), m);
    }
}


/// A binding fires for a key only when the key is its own and every one of
/// its modifiers is held: a single modifier that is not held keeps it from
/// firing (Ctrl+Alt+Insert does not fire while only Ctrl is held). When the
/// key is its own and all its modifiers are held, it fires, whatever else is
/// held.
pub proof fn law_binding_needs_every_modifier(b: KeyBindingView, held: Seq<Modifier>, key: Key)
    ensures
        binding_matches(b, held, key) ==> key == b.key,
        forall|i: int| 0 <= i < b.modifiers.len() && !held.contains(#[trigger] b.modifiers[i])
            ==> !binding_matches(b, held, key),
        key == b.key && (forall|m: Modifier| b.modifiers.contains(m) ==> held.contains(m))
            ==> binding_matches(b, held, key),
{
    if key == b.key && (forall|m: Modifier| b.modifiers.contains(m) ==> held.contains(m)) {
        assert forall|i: int| 0 <= i < b.modifiers.len() implies held.contains(#[trigger] b.modifiers[i]) by {
            assert(b.modifiers.contains(b.modifiers[i]));
        }
    }
}

/// The bindings a key press fires are exactly those whose key it is and
/// whose modifiers are all held, each named by its index.
pub proof fn law_fired_bindings(bs: Seq<KeyBindingView>, held: Seq<Modifier>, key: Key, n: nat)
    requires
        n <= bs.len(),
        n <= usize::MAX,
    ensures
        forall|j: int| 0 <= j < n ==> (#[trigger] matching_bindings(bs, held, key, n).contains(j as usize)
            <==> (bs[j].key == key && forall|m: Modifier| bs[j].modifiers.contains(m) ==> held.contains(m))),
        forall|x: usize| #[trigger] matching_bindings(bs, held, key, n).contains(x) ==> x < n,
    decreases n,
{
    if n > 0 {
        law_fired_bindings(bs, held, key, (n - 1) as nat);
        let prev = matching_bindings(bs, held, key, (n - 1) as nat);
        let cur = matching_bindings(bs, held, key, n);
        assert forall|j: int| 0 <= j < n implies (#[trigger] cur.contains(j as usize)
            <==> (bs[j].key == key && forall|m: Modifier| bs[j].modifiers.contains(m) ==> held.contains(m))) by {
            law_binding_needs_every_modifier(bs[j], held, key);
            if bs[j].key == key && !(forall|m: Modifier| bs[j].modifiers.contains(m) ==> held.contains(m)) {
                let m = choose|m: Modifier| bs[j].modifiers.contains(m) && !held.contains(m);
                let i = choose|i: int| 0 <= i < bs[j].modifiers.len() && bs[j].modifiers[i] == m;
                assert(!held.contains(bs[j].modifiers[i]));
            }
            if binding_matches(bs[(n - 1) as int], held, key) {
                assert(cur == prev.push((n - 1) as usize));
                if cur.contains(j as usize) && j < n - 1 {
                    let k = choose|k: int| 0 <= k < cur.len() && cur[k] == j as usize;
                    if k < prev.len() {
                        assert(prev.contains(j as usize));
                    }
                }
                if j < n - 1 && prev.contains(j as usize) {
                    let k = choose|k: int| 0 <= k < prev.len() && prev[k] == j as usize;
                    assert(cur[k] == j as usize);
                }
                if j == n - 1 {
                    assert(cur[cur.len() - 1] == j as usize);
                }
            }
        }
        assert forall|x: usize| #[trigger] cur.contains(x) implies x < n by {
            if binding_matches(bs[(n - 1) as int], held, key) {
                let k = choose|k: int| 0 <= k < cur.len() && cur[k] == x;
                if k < prev.len() {
                    assert(prev.contains(x));
                }
            }
        }
    }
}

} // verus!
