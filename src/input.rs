//! The pressed-key state fed by keyboard and focus events.
use vstd::prelude::*;

verus! {

/// Whether a key went down or up.
#[derive(Clone, Copy, Debug, PartialEq, Eq)]
pub enum ElementState {
    Pressed,
    Released,
}

/// The window events the input handler reacts to; keys are virtual key codes.
#[derive(Clone, Copy, Debug, PartialEq, Eq)]
pub enum InputEvent {
    /// A key changed state; `None` when the key has no virtual key code.
    KeyboardInput(ElementState, Option<u32>),
    /// The window gained (`true`) or lost (`false`) focus.
    Focused(bool),
    /// Any other window event.
    Other,
}

/// Whether a held key has been reported by `key_once` yet.
#[derive(Clone, Copy, Debug, PartialEq, Eq)]
pub enum KeyQueryState {
    NotQueried,
    Queried,
}

/// The keys held down, each with whether `key_once` has reported it.
#[derive(Debug)]
pub struct InputHandler {
    pressed_keys: Vec<(u32, KeyQueryState)>,
}

/// The map from held keys to their query state that `entries` describes.
pub open spec fn entries_map(entries: Seq<(u32, KeyQueryState)>) -> Map<u32, KeyQueryState>
    decreases entries.len(),
{
    if entries.len() == 0 {
        Map::empty()
    } else {
        entries_map(entries.drop_last()).insert(entries.last().0, entries.last().1)
    }
}

/// No key appears twice.
pub open spec fn unique_keys(entries: Seq<(u32, KeyQueryState)>) -> bool {
    forall|i: int, j: int|
        0 <= i < entries.len() && 0 <= j < entries.len() && i != j ==> entries[i].0 != entries[j].0
}

proof fn lemma_entries_map_index(entries: Seq<(u32, KeyQueryState)>, k: u32)
    requires
        unique_keys(entries),
    ensures
        entries_map(entries).contains_key(k) <==> exists|i: int|
            0 <= i < entries.len() && entries[i].0 == k,
        forall|i: int|
            0 <= i < entries.len() && entries[i].0 == k ==> entries_map(entries)[k]
                == entries[i].1,
    decreases entries.len(),
{
    if entries.len() > 0 {
        let init = entries.drop_last();
        let last = entries.len() - 1;
        assert(unique_keys(init)) by {
            assert forall|i: int, j: int|
                0 <= i < init.len() && 0 <= j < init.len() && i != j implies init[i].0
                    != init[j].0 by {
                assert(init[i] == entries[i] && init[j] == entries[j]);
            }
        }
        lemma_entries_map_index(init, k);
        if entries_map(init).contains_key(k) {
            let i = choose|i: int| 0 <= i < init.len() && init[i].0 == k;
            assert(entries[i].0 == k);
        }
        if entries[last].0 == k {
            assert(entries_map(entries).contains_key(k));
        }
        assert forall|i: int| 0 <= i < entries.len() && entries[i].0 == k implies entries_map(
            entries,
        )[k] == entries[i].1 by {
            if i < last {
                assert(init[i] == entries[i]);
                assert(entries[last].0 != k);
            }
        }
        if exists|i: int| 0 <= i < entries.len() && entries[i].0 == k {
            let i = choose|i: int| 0 <= i < entries.len() && entries[i].0 == k;
            if i < last {
                assert(init[i] == entries[i]);
            }
        }
    }
}

proof fn lemma_entries_map_update(entries: Seq<(u32, KeyQueryState)>, i: int, v: KeyQueryState)
    requires
        unique_keys(entries),
        0 <= i < entries.len(),
    ensures
        entries_map(entries.update(i, (entries[i].0, v))) == entries_map(entries).insert(
            entries[i].0,
            v,
        ),
    decreases entries.len(),
{
    let k = entries[i].0;
    let up = entries.update(i, (k, v));
    if i == entries.len() - 1 {
        assert(up.drop_last() =~= entries.drop_last());
        lemma_entries_map_index(entries.drop_last(), k);
        assert(entries_map(up) =~= entries_map(entries).insert(k, v));
    } else {
        let init = entries.drop_last();
        assert(up.drop_last() =~= init.update(i, (k, v)));
        lemma_entries_map_update(init, i, v);
        assert(entries.last().0 != k);
        assert(entries_map(up) =~= entries_map(entries).insert(k, v));
    }
}

proof fn lemma_entries_map_remove(entries: Seq<(u32, KeyQueryState)>, i: int)
    requires
        unique_keys(entries),
        0 <= i < entries.len(),
    ensures
        entries_map(entries.remove(i)) == entries_map(entries).remove(entries[i].0),
        unique_keys(entries.remove(i)),
    decreases entries.len(),
{
    let k = entries[i].0;
    let init = entries.drop_last();
    if i == entries.len() - 1 {
        assert(entries.remove(i) =~= init);
        lemma_entries_map_index(init, k);
        assert(!entries_map(init).contains_key(k));
        assert(entries_map(init) =~= entries_map(entries).remove(k));
    } else {
        lemma_entries_map_remove(init, i);
        assert(entries.remove(i).drop_last() =~= init.remove(i));
        assert(entries.remove(i).last() == entries.last());
        assert(entries.last().0 != k);
        assert(entries_map(entries.remove(i)) =~= entries_map(entries).remove(k));
    }
}

impl View for InputHandler {
    type V = Map<u32, KeyQueryState>;

    closed spec fn view(&self) -> Map<u32, KeyQueryState> {
        entries_map(self.pressed_keys@)
    }
}

impl InputHandler {
    pub closed spec fn wf(&self) -> bool {
        unique_keys(self.pressed_keys@)
    }

    /// A handler with no key held.
    pub fn new() -> (r: InputHandler)
        ensures
            r.wf(),
            r@ == Map::<u32, KeyQueryState>::empty(),
    {
        InputHandler { pressed_keys: Vec::new() }
    }

    /// The position of `key` among the held keys.
    fn find(&self, key: u32) -> (r: Option<usize>)
        requires
            self.wf(),
        ensures
            r matches Some(i) ==> i < self.pressed_keys@.len() && self.pressed_keys@[i as int].0
                == key,
            r is None <==> !self@.contains_key(key),
    {
        proof {
            lemma_entries_map_index(self.pressed_keys@, key);
        }
        let mut i: usize = 0;
        while i < self.pressed_keys.len()
            invariant
                i <= self.pressed_keys@.len(),
                self.wf(),
                forall|j: int| 0 <= j < i ==> self.pressed_keys@[j].0 != key,
            decreases self.pressed_keys@.len() - i,
        {
            if self.pressed_keys[i].0 == key {
                proof {
                    lemma_entries_map_index(self.pressed_keys@, key);
                }
                return Some(i);
            }
            i = i + 1;
        }
        proof {
            lemma_entries_map_index(self.pressed_keys@, key);
        }
        None
    }

    /// Takes in one window event.
    ///
    /// A pressed key is held from then on (pressing a held key again keeps
    /// its query state); a released key is held no more; losing focus
    /// releases every key.
    pub fn update(&mut self, event: InputEvent)
        requires
            old(self).wf(),
        ensures
            final(self).wf(),
            final(self)@ == match event {
                InputEvent::KeyboardInput(ElementState::Pressed, Some(k)) => if old(
                    self,
                )@.contains_key(k) {
                    old(self)@
                } else {
                    old(self)@.insert(k, KeyQueryState::NotQueried)
                },
                InputEvent::KeyboardInput(ElementState::Released, Some(k)) => old(self)@.remove(k),
                InputEvent::Focused(false) => Map::empty(),
                _ => old(self)@,
            },
    {
        match event {
            InputEvent::KeyboardInput(ElementState::Pressed, Some(key)) => {
                if self.find(key).is_none() {
                    let ghost before = self.pressed_keys@;
                    proof {
                        lemma_entries_map_index(before, key);
                    }
                    self.pressed_keys.push((key, KeyQueryState::NotQueried));
                    assert(self.pressed_keys@.drop_last() =~= before);
                }
            },
            InputEvent::KeyboardInput(ElementState::Released, Some(key)) => {
                match self.find(key) {
                    Some(i) => {
                        proof {
                            lemma_entries_map_remove(self.pressed_keys@, i as int);
                        }
                        self.pressed_keys.remove(i);
                    },
                    None => {
                        assert(old(self)@.remove(key) =~= old(self)@);
                    },
                }
            },
            InputEvent::Focused(false) => {
                self.pressed_keys.clear();
                assert(self@ =~= Map::<u32, KeyQueryState>::empty());
            },
            _ => {},
        }
    }

    /// The held keys, in the order they went down.
    pub fn pressed_keys(&self) -> (r: Vec<u32>)
        requires
            self.wf(),
        ensures
            r@.to_set() == self@.dom(),
            r@.no_duplicates(),
    {
        let mut r: Vec<u32> = Vec::new();
        let mut i: usize = 0;
        while i < self.pressed_keys.len()
            invariant
                i <= self.pressed_keys@.len(),
                self.wf(),
                r@ == self.pressed_keys@.take(i as int).map_values(|e: (u32, KeyQueryState)| e.0),
            decreases self.pressed_keys@.len() - i,
        {
            r.push(self.pressed_keys[i].0);
            assert(self.pressed_keys@.take(i + 1) =~= self.pressed_keys@.take(i as int).push(
                self.pressed_keys@[i as int],
            ));
            assert(r@ =~= self.pressed_keys@.take(i + 1).map_values(
                |e: (u32, KeyQueryState)| e.0,
            ));
            i = i + 1;
        }
        assert(self.pressed_keys@.take(i as int) =~= self.pressed_keys@);
        assert forall|k: u32| r@.to_set().contains(k) <==> self@.dom().contains(k) by {
            lemma_entries_map_index(self.pressed_keys@, k);
            if self@.dom().contains(k) {
                let j = choose|j: int| 0 <= j < self.pressed_keys@.len() && self.pressed_keys@[j].0 == k;
                assert(r@[j] == k);
            }
        }
        assert(r@.to_set() =~= self@.dom());
        r
    }

    /// Whether `key` is held down.
    pub fn key_down(&self, key: u32) -> (r: bool)
        requires
            self.wf(),
        ensures
            r == self@.contains_key(key),
    {
        self.find(key).is_some()
    }

    /// Whether every key of `keys` is held down.
    pub fn keys_down(&self, keys: &[u32]) -> (r: bool)
        requires
            self.wf(),
        ensures
            r == (forall|i: int| 0 <= i < keys@.len() ==> self@.contains_key(#[trigger] keys@[i])),
    {
        let mut i: usize = 0;
        while i < keys.len()
            invariant
                i <= keys@.len(),
                self.wf(),
                forall|j: int| 0 <= j < i ==> self@.contains_key(#[trigger] keys@[j]),
            decreases keys@.len() - i,
        {
            if !self.key_down(keys[i]) {
                return false;
            }
            i = i + 1;
        }
        true
    }

    /// Whether `key` is held and has not been reported since it went down;
    /// reporting it marks it, so a key held down is reported once.
    pub fn key_once(&mut self, key: u32) -> (r: bool)
        requires
            old(self).wf(),
        ensures
            final(self).wf(),
            r == (old(self)@.contains_key(key) && old(self)@[key] == KeyQueryState::NotQueried),
            final(self)@ == if r {
                old(self)@.insert(key, KeyQueryState::Queried)
            } else {
                old(self)@
            },
    {
        match self.find(key) {
            None => false,
            Some(i) => {
                proof {
                    lemma_entries_map_index(self.pressed_keys@, key);
                }
                if matches!(self.pressed_keys[i].1, KeyQueryState::NotQueried) {
                    proof {
                        lemma_entries_map_update(self.pressed_keys@, i as int, KeyQueryState::Queried);
                    }
                    self.pressed_keys.set(i, (key, KeyQueryState::Queried));
                    assert forall|a: int, b: int|
                        0 <= a < self.pressed_keys@.len() && 0 <= b < self.pressed_keys@.len() && a
                            != b implies self.pressed_keys@[a].0 != self.pressed_keys@[b].0 by {
                        assert(old(self).pressed_keys@[a].0 == self.pressed_keys@[a].0);
                        assert(old(self).pressed_keys@[b].0 == self.pressed_keys@[b].0);
                    }
                    true
                } else {
                    false
                }
            },
        }
    }

    /// Whether every key of `keys` is held and at least one of them has not
    /// been reported yet. Keys are tried in order and the first unreported
    /// one is marked reported, whatever the answer.
    pub fn keys_once(&mut self, keys: &[u32]) -> (r: bool)
        requires
            old(self).wf(),
        ensures
            final(self).wf(),
            r == ((exists|i: int|
                0 <= i < keys@.len() && #[trigger] unreported(old(self)@, keys@[i])) && (forall|
                i: int,
            |
                0 <= i < keys@.len() ==> old(self)@.contains_key(#[trigger] keys@[i]))),
            final(self)@ == match first_unreported(old(self)@, keys@) {
                Some(i) => old(self)@.insert(keys@[i], KeyQueryState::Queried),
                None => old(self)@,
            },
    {
        let mut i: usize = 0;
        let mut any = false;
        while i < keys.len() && !any
            invariant
                i <= keys@.len(),
                self.wf(),
                !any ==> self@ == old(self)@ && first_unreported(old(self)@, keys@.take(i as int))
                    is None,
                any ==> i >= 1 && first_unreported(old(self)@, keys@) == Some(i - 1) && self@
                    == old(self)@.insert(keys@[i - 1], KeyQueryState::Queried),
            decreases keys@.len() - i,
        {
            proof {
                assert(keys@.take(i + 1).drop_last() =~= keys@.take(i as int));
                assert(keys@.take(i + 1).last() == keys@[i as int]);
            }
            if self.key_once(keys[i]) {
                proof {
                    lemma_first_unreported_prefix(old(self)@, keys@, i + 1);
                }
                any = true;
            }
            i = i + 1;
        }
        proof {
            if !any {
                assert(keys@.take(i as int) =~= keys@);
            }
            lemma_first_unreported_exists(old(self)@, keys@);
        }
        let ghost marked = self@;
        let all_down = self.keys_down(keys);
        proof {
            assert forall|j: int| 0 <= j < keys@.len() implies (self@.contains_key(keys@[j])
                <==> old(self)@.contains_key(keys@[j])) by {
                if any {
                    assert(old(self)@.contains_key(keys@[i - 1]));
                    assert(marked.dom() =~= old(self)@.dom());
                }
            }
        }
        any && all_down
    }
}

/// `key` is held and not reported yet.
pub open spec fn unreported(held: Map<u32, KeyQueryState>, key: u32) -> bool {
    held.contains_key(key) && held[key] == KeyQueryState::NotQueried
}

/// The position of the first unreported key of `keys`.
pub open spec fn first_unreported(held: Map<u32, KeyQueryState>, keys: Seq<u32>) -> Option<int>
    decreases keys.len(),
{
    if keys.len() == 0 {
        None
    } else {
        match first_unreported(held, keys.drop_last()) {
            Some(i) => Some(i),
            None => if unreported(held, keys.last()) {
                Some(keys.len() - 1)
            } else {
                None
            },
        }
    }
}

proof fn lemma_first_unreported_prefix(held: Map<u32, KeyQueryState>, keys: Seq<u32>, k: int)
    requires
        0 <= k <= keys.len(),
        first_unreported(held, keys.take(k)) is Some,
    ensures
        first_unreported(held, keys) == first_unreported(held, keys.take(k)),
    decreases keys.len(),
{
    if k < keys.len() {
        assert(keys.drop_last().take(k) =~= keys.take(k));
        lemma_first_unreported_prefix(held, keys.drop_last(), k);
    } else {
        assert(keys.take(k) =~= keys);
    }
}

proof fn lemma_first_unreported_exists(held: Map<u32, KeyQueryState>, keys: Seq<u32>)
    ensures
        first_unreported(held, keys) is Some <==> exists|i: int|
            0 <= i < keys.len() && #[trigger] unreported(held, keys[i]),
        first_unreported(held, keys) matches Some(i) ==> 0 <= i < keys.len() && unreported(
            held,
            keys[i],
        ),
    decreases keys.len(),
{
    if keys.len() > 0 {
        lemma_first_unreported_exists(held, keys.drop_last());
        if exists|i: int| 0 <= i < keys.len() && #[trigger] unreported(held, keys[i]) {
            let i = choose|i: int| 0 <= i < keys.len() && #[trigger] unreported(held, keys[i]);
            if i < keys.len() - 1 {
                assert(unreported(held, keys.drop_last()[i]));
            }
        }
    }
}

} // verus!
