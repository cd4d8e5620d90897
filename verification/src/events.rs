//! Debounced input sampling: persistent raw key state together with a
//! per-poll edge snapshot that reports only the transitions observed by the
//! most recent poll.

use vstd::prelude::*;

verus! {

/// One raw input event handed in by the embedding program. Keys and discrete
/// signals (such as a window-close request) are named by plain identifiers;
/// anything the embedder does not care to translate becomes `Other` and is
/// ignored by the sampler.
#[derive(Clone, Copy, Debug)]
pub enum InputEvent {
    KeyDown(u32),
    KeyUp(u32),
    Signal(u32),
    Other,
}

/// Debounce bookkeeping for one tracked key: the persistent raw held state
/// and the edge reported for the current poll (`Some(true)` just pressed,
/// `Some(false)` just released, `None` unchanged).
#[derive(Clone, Copy, Debug)]
pub struct KeyTrack {
    pub id: u32,
    pub held: bool,
    pub edge: Option<bool>,
}

/// Bookkeeping for one tracked discrete signal: whether it occurred during
/// the current poll.
#[derive(Clone, Copy, Debug)]
pub struct SignalTrack {
    pub id: u32,
    pub occurred: bool,
}

/// A key track with its edge cleared, as every track is at the start of a
/// poll.
pub open spec fn reset_key(t: KeyTrack) -> KeyTrack {
    KeyTrack { id: t.id, held: t.held, edge: None }
}

/// How a single event changes one key track. A key-down on the track's key
/// reports a just-pressed edge only when the key was not already held (so
/// auto-repeat is idempotent) and always leaves the key held; a key-up
/// reports a just-released edge only when the key was held and always leaves
/// it released. Every other event leaves the track alone.
pub open spec fn key_after_event(t: KeyTrack, e: InputEvent) -> KeyTrack {
    match e {
        InputEvent::KeyDown(k) => if k == t.id {
            KeyTrack { id: t.id, held: true, edge: if !t.held { Some(true) } else { t.edge } }
        } else {
            t
        },
        InputEvent::KeyUp(k) => if k == t.id {
            KeyTrack { id: t.id, held: false, edge: if t.held { Some(false) } else { t.edge } }
        } else {
            t
        },
        _ => t,
    }
}

/// A key track after observing a sequence of events in order.
pub open spec fn key_after_events(t: KeyTrack, evs: Seq<InputEvent>) -> KeyTrack
    decreases evs.len(),
{
    if evs.len() == 0 {
        t
    } else {
        key_after_events(key_after_event(t, evs[0]), evs.drop_first())
    }
}

/// A key track after one whole poll over `evs`: the edge snapshot is
/// discarded, then every event is applied in order.
pub open spec fn key_polled(t: KeyTrack, evs: Seq<InputEvent>) -> KeyTrack {
    key_after_events(reset_key(t), evs)
}

/// Whether a tracked signal occurs anywhere in `evs`. Repeated occurrences
/// within one poll collapse to a single `true`.
pub open spec fn signal_in(id: u32, evs: Seq<InputEvent>) -> bool {
    exists|i: int| 0 <= i < evs.len() && evs[i] == InputEvent::Signal(id)
}

/// The first track for `id`, if any.
pub open spec fn lookup_key(keys: Seq<KeyTrack>, id: u32) -> Option<KeyTrack>
    decreases keys.len(),
{
    if keys.len() == 0 {
        None
    } else if keys[0].id == id {
        Some(keys[0])
    } else {
        lookup_key(keys.drop_first(), id)
    }
}

/// The first signal track for `id`, if any.
pub open spec fn lookup_signal(signals: Seq<SignalTrack>, id: u32) -> Option<SignalTrack>
    decreases signals.len(),
{
    if signals.len() == 0 {
        None
    } else if signals[0].id == id {
        Some(signals[0])
    } else {
        lookup_signal(signals.drop_first(), id)
    }
}

/// The debounced input sampler. It is configured once with the identifiers
/// of the keys and discrete signals to track; each call to [`EventState::poll`]
/// consumes one batch of pending events and recomputes the edge snapshot
/// from scratch while updating the persistent raw state.
#[derive(Debug)]
pub struct EventState {
    keys: Vec<KeyTrack>,
    signals: Vec<SignalTrack>,
}

impl EventState {
    /// The tracked keys with their current raw and edge state.
    pub closed spec fn keys(self) -> Seq<KeyTrack> {
        self.keys@
    }

    /// The tracked signals with their current occurrence flags.
    pub closed spec fn signals(self) -> Seq<SignalTrack> {
        self.signals@
    }

    /// Creates a sampler tracking the given key and signal identifiers, all
    /// keys initially released and no signal occurred.
    pub fn new(tracked_keys: &Vec<u32>, tracked_signals: &Vec<u32>) -> (s: EventState)
        ensures
            s.keys().len() == tracked_keys@.len(),
            forall|i: int| 0 <= i < tracked_keys@.len()
                ==> s.keys()[i] == (KeyTrack { id: tracked_keys@[i], held: false, edge: None }),
            s.signals().len() == tracked_signals@.len(),
            forall|i: int| 0 <= i < tracked_signals@.len()
                ==> s.signals()[i] == (SignalTrack { id: tracked_signals@[i], occurred: false }),
    {
        let mut keys: Vec<KeyTrack> = Vec::new();
        let mut i: usize = 0;
        while i < tracked_keys.len()
            invariant
                i <= tracked_keys@.len(),
                keys@.len() == i,
                forall|j: int| 0 <= j < i
                    ==> keys@[j] == (KeyTrack { id: tracked_keys@[j], held: false, edge: None }),
            decreases tracked_keys@.len() - i,
        {
            keys.push(KeyTrack { id: tracked_keys[i], held: false, edge: None });
            i += 1;
        }
        let mut signals: Vec<SignalTrack> = Vec::new();
        let mut j: usize = 0;
        while j < tracked_signals.len()
            invariant
                j <= tracked_signals@.len(),
                signals@.len() == j,
                forall|k: int| 0 <= k < j
                    ==> signals@[k] == (SignalTrack { id: tracked_signals@[k], occurred: false }),
            decreases tracked_signals@.len() - j,
        {
            signals.push(SignalTrack { id: tracked_signals[j], occurred: false });
            j += 1;
        }
        EventState { keys, signals }
    }

    /// One poll: the previous edge snapshot is discarded, then the batch of
    /// pending events is applied in order, once. Each key track ends exactly
    /// as [`key_polled`] describes and each signal flag reports whether its
    /// signal occurred anywhere in the batch.
    pub fn poll(&mut self, events: &Vec<InputEvent>)
        ensures
            final(self).keys().len() == old(self).keys().len(),
            forall|i: int| 0 <= i < old(self).keys().len()
                ==> final(self).keys()[i] == key_polled(old(self).keys()[i], events@),
            final(self).signals().len() == old(self).signals().len(),
            forall|i: int| 0 <= i < old(self).signals().len()
                ==> final(self).signals()[i] == (SignalTrack {
                    id: old(self).signals()[i].id,
                    occurred: signal_in(old(self).signals()[i].id, events@),
                }),
    {
        let mut i: usize = 0;
        while i < self.keys.len()
            invariant
                i <= self.keys@.len(),
                self.keys@.len() == old(self).keys@.len(),
                forall|j: int| 0 <= j < i ==> self.keys@[j] == reset_key(old(self).keys@[j]),
                forall|j: int| i <= j < self.keys@.len() ==> self.keys@[j] == old(self).keys@[j],
                self.signals@ == old(self).signals@,
            decreases self.keys@.len() - i,
        {
            let t = self.keys[i];
            self.keys.set(i, KeyTrack { id: t.id, held: t.held, edge: None });
            i += 1;
        }

        let mut i: usize = 0;
        while i < self.signals.len()
            invariant
                i <= self.signals@.len(),
                self.signals@.len() == old(self).signals@.len(),
                forall|j: int| 0 <= j < i
                    ==> self.signals@[j] == (SignalTrack { id: old(self).signals@[j].id, occurred: false }),
                forall|j: int| i <= j < self.signals@.len() ==> self.signals@[j] == old(self).signals@[j],
                self.keys@.len() == old(self).keys@.len(),
                forall|j: int| 0 <= j < self.keys@.len() ==> self.keys@[j] == reset_key(old(self).keys@[j]),
            decreases self.signals@.len() - i,
        {
            let t = self.signals[i];
            self.signals.set(i, SignalTrack { id: t.id, occurred: false });
            i += 1;
        }

        let mut j: usize = 0;
        while j < events.len()
            invariant
                j <= events@.len(),
                self.keys@.len() == old(self).keys@.len(),
                forall|i2: int| 0 <= i2 < self.keys@.len()
                    ==> self.keys@[i2] == key_after_events(
                        reset_key(old(self).keys@[i2]),
                        events@.take(j as int),
                    ),
                self.signals@.len() == old(self).signals@.len(),
                forall|i2: int| 0 <= i2 < self.signals@.len()
                    ==> self.signals@[i2] == (SignalTrack {
                        id: old(self).signals@[i2].id,
                        occurred: signal_in(old(self).signals@[i2].id, events@.take(j as int)),
                    }),
            decreases events@.len() - j,
        {
            let ghost keys_before = self.keys@;
            let ghost signals_before = self.signals@;
            let e = events[j];
            match e {
                InputEvent::KeyDown(k) => {
                    let mut i: usize = 0;
                    while i < self.keys.len()
                        invariant
                            i <= self.keys@.len(),
                            self.keys@.len() == keys_before.len(),
                            forall|i2: int| 0 <= i2 < i
                                ==> self.keys@[i2] == key_after_event(keys_before[i2], InputEvent::KeyDown(k)),
                            forall|i2: int| i <= i2 < self.keys@.len()
                                ==> self.keys@[i2] == keys_before[i2],
                            self.signals@ == signals_before,
                        decreases self.keys@.len() - i,
                    {
                        let t = self.keys[i];
                        if t.id == k {
                            let edge: Option<bool> = if !t.held { Some(true) } else { t.edge };
                            self.keys.set(i, KeyTrack { id: t.id, held: true, edge });
                        }
                        i += 1;
                    }
                },
                InputEvent::KeyUp(k) => {
                    let mut i: usize = 0;
                    while i < self.keys.len()
                        invariant
                            i <= self.keys@.len(),
                            self.keys@.len() == keys_before.len(),
                            forall|i2: int| 0 <= i2 < i
                                ==> self.keys@[i2] == key_after_event(keys_before[i2], InputEvent::KeyUp(k)),
                            forall|i2: int| i <= i2 < self.keys@.len()
                                ==> self.keys@[i2] == keys_before[i2],
                            self.signals@ == signals_before,
                        decreases self.keys@.len() - i,
                    {
                        let t = self.keys[i];
                        if t.id == k {
                            let edge: Option<bool> = if t.held { Some(false) } else { t.edge };
                            self.keys.set(i, KeyTrack { id: t.id, held: false, edge });
                        }
                        i += 1;
                    }
                },
                InputEvent::Signal(s) => {
                    let mut i: usize = 0;
                    while i < self.signals.len()
                        invariant
                            i <= self.signals@.len(),
                            self.signals@.len() == signals_before.len(),
                            forall|i2: int| 0 <= i2 < i
                                ==> self.signals@[i2] == (SignalTrack {
                                    id: signals_before[i2].id,
                                    occurred: signals_before[i2].occurred || signals_before[i2].id == s,
                                }),
                            forall|i2: int| i <= i2 < self.signals@.len()
                                ==> self.signals@[i2] == signals_before[i2],
                            self.keys@ == keys_before,
                        decreases self.signals@.len() - i,
                    {
                        let t = self.signals[i];
                        if t.id == s {
                            self.signals.set(i, SignalTrack { id: t.id, occurred: true });
                        }
                        i += 1;
                    }
                },
                InputEvent::Other => {},
            }
            proof {
                assert(events@.take(j + 1) =~= events@.take(j as int).push(events@[j as int]));
                assert forall|i2: int| 0 <= i2 < self.keys@.len() implies self.keys@[i2]
                    == key_after_events(reset_key(old(self).keys@[i2]), events@.take(j + 1)) by {
                    lemma_key_after_events_snoc(
                        reset_key(old(self).keys@[i2]),
                        events@.take(j as int),
                        events@[j as int],
                    );
                }
                assert forall|i2: int| 0 <= i2 < self.signals@.len() implies self.signals@[i2]
                    == (SignalTrack {
                        id: old(self).signals@[i2].id,
                        occurred: signal_in(old(self).signals@[i2].id, events@.take(j + 1)),
                    }) by {
                    lemma_signal_in_snoc(
                        old(self).signals@[i2].id,
                        events@.take(j as int),
                        events@[j as int],
                    );
                }
            }
            j += 1;
        }
        proof {
            assert(events@.take(events@.len() as int) =~= events@);
        }
    }

    /// The persistent raw state of a key: `true` while it is held. Untracked
    /// keys read as released.
    pub fn key_held(&self, id: u32) -> (r: bool)
        ensures
            r == match lookup_key(self.keys(), id) {
                Some(t) => t.held,
                None => false,
            },
    {
        let mut i: usize = 0;
        while i < self.keys.len()
            invariant
                i <= self.keys@.len(),
                forall|j: int| 0 <= j < i ==> self.keys@[j].id != id,
            decreases self.keys@.len() - i,
        {
            if self.keys[i].id == id {
                proof {
                    lemma_lookup_key_at(self.keys@, id, i as int);
                }
                return self.keys[i].held;
            }
            i += 1;
        }
        proof {
            lemma_lookup_key_none(self.keys@, id);
        }
        false
    }

    /// The edge reported for a key by the most recent poll: `Some(true)` just
    /// pressed, `Some(false)` just released, `None` unchanged or untracked.
    pub fn key_edge(&self, id: u32) -> (r: Option<bool>)
        ensures
            r == match lookup_key(self.keys(), id) {
                Some(t) => t.edge,
                None => None::<bool>,
            },
    {
        let mut i: usize = 0;
        while i < self.keys.len()
            invariant
                i <= self.keys@.len(),
                forall|j: int| 0 <= j < i ==> self.keys@[j].id != id,
            decreases self.keys@.len() - i,
        {
            if self.keys[i].id == id {
                proof {
                    lemma_lookup_key_at(self.keys@, id, i as int);
                }
                return self.keys[i].edge;
            }
            i += 1;
        }
        proof {
            lemma_lookup_key_none(self.keys@, id);
        }
        None
    }

    /// Whether a tracked discrete signal occurred during the most recent
    /// poll. Untracked signals read as not occurred.
    pub fn signal_occurred(&self, id: u32) -> (r: bool)
        ensures
            r == match lookup_signal(self.signals(), id) {
                Some(t) => t.occurred,
                None => false,
            },
    {
        let mut i: usize = 0;
        while i < self.signals.len()
            invariant
                i <= self.signals@.len(),
                forall|j: int| 0 <= j < i ==> self.signals@[j].id != id,
            decreases self.signals@.len() - i,
        {
            if self.signals[i].id == id {
                proof {
                    lemma_lookup_signal_at(self.signals@, id, i as int);
                }
                return self.signals[i].occurred;
            }
            i += 1;
        }
        proof {
            lemma_lookup_signal_none(self.signals@, id);
        }
        false
    }
}

/// Appending one event to a batch applies that event last.
proof fn lemma_key_after_events_snoc(t: KeyTrack, evs: Seq<InputEvent>, e: InputEvent)
    ensures
        key_after_events(t, evs.push(e)) == key_after_event(key_after_events(t, evs), e),
    decreases evs.len(),
{
    if evs.len() == 0 {
        assert(evs.push(e)[0] == e);
        assert(evs.push(e).drop_first() =~= Seq::<InputEvent>::empty());
        assert(key_after_events(key_after_event(t, e), Seq::<InputEvent>::empty())
            == key_after_event(t, e));
    } else {
        assert(evs.push(e)[0] == evs[0]);
        assert(evs.push(e).drop_first() =~= evs.drop_first().push(e));
        lemma_key_after_events_snoc(key_after_event(t, evs[0]), evs.drop_first(), e);
    }
}

/// A signal occurs in `evs.push(e)` exactly when it occurs in `evs` or is `e`.
proof fn lemma_signal_in_snoc(id: u32, evs: Seq<InputEvent>, e: InputEvent)
    ensures
        signal_in(id, evs.push(e)) == (signal_in(id, evs) || e == InputEvent::Signal(id)),
{
    if signal_in(id, evs) {
        let i = choose|i: int| 0 <= i < evs.len() && evs[i] == InputEvent::Signal(id);
        assert(evs.push(e)[i] == InputEvent::Signal(id));
    }
    if e == InputEvent::Signal(id) {
        assert(evs.push(e)[evs.len() as int] == InputEvent::Signal(id));
    }
    if signal_in(id, evs.push(e)) {
        let i = choose|i: int| 0 <= i < evs.push(e).len() && evs.push(e)[i] == InputEvent::Signal(id);
        if i < evs.len() {
            assert(evs[i] == InputEvent::Signal(id));
        }
    }
}

/// A scan that finds `id` first at position `i` agrees with [`lookup_key`].
proof fn lemma_lookup_key_at(keys: Seq<KeyTrack>, id: u32, i: int)
    requires
        0 <= i < keys.len(),
        keys[i].id == id,
        forall|j: int| 0 <= j < i ==> keys[j].id != id,
    ensures
        lookup_key(keys, id) == Some(keys[i]),
    decreases i,
{
    if i > 0 {
        lemma_lookup_key_at(keys.drop_first(), id, i - 1);
    }
}

/// A scan that never finds `id` agrees with [`lookup_key`].
proof fn lemma_lookup_key_none(keys: Seq<KeyTrack>, id: u32)
    requires
        forall|j: int| 0 <= j < keys.len() ==> keys[j].id != id,
    ensures
        lookup_key(keys, id) is None,
    decreases keys.len(),
{
    if keys.len() > 0 {
        lemma_lookup_key_none(keys.drop_first(), id);
    }
}

/// A scan that finds `id` first at position `i` agrees with [`lookup_signal`].
proof fn lemma_lookup_signal_at(signals: Seq<SignalTrack>, id: u32, i: int)
    requires
        0 <= i < signals.len(),
        signals[i].id == id,
        forall|j: int| 0 <= j < i ==> signals[j].id != id,
    ensures
        lookup_signal(signals, id) == Some(signals[i]),
    decreases i,
{
    if i > 0 {
        lemma_lookup_signal_at(signals.drop_first(), id, i - 1);
    }
}

/// A scan that never finds `id` agrees with [`lookup_signal`].
proof fn lemma_lookup_signal_none(signals: Seq<SignalTrack>, id: u32)
    requires
        forall|j: int| 0 <= j < signals.len() ==> signals[j].id != id,
    ensures
        lookup_signal(signals, id) is None,
    decreases signals.len(),
{
    if signals.len() > 0 {
        lemma_lookup_signal_none(signals.drop_first(), id);
    }
}

/// A sequence of events none of which concerns a key leaves its track
/// unchanged.
proof fn lemma_unrelated_events_fix_key(t: KeyTrack, evs: Seq<InputEvent>)
    requires
        forall|i: int| 0 <= i < evs.len()
            ==> evs[i] != InputEvent::KeyDown(t.id) && evs[i] != InputEvent::KeyUp(t.id),
    ensures
        key_after_events(t, evs) == t,
    decreases evs.len(),
{
    if evs.len() > 0 {
        assert(key_after_event(t, evs[0]) == t);
        assert forall|i: int| 0 <= i < evs.drop_first().len()
            implies evs.drop_first()[i] != InputEvent::KeyDown(t.id)
                && evs.drop_first()[i] != InputEvent::KeyUp(t.id) by {
            assert(evs.drop_first()[i] == evs[i + 1]);
        }
        lemma_unrelated_events_fix_key(t, evs.drop_first());
    }
}

/// A poll whose batch holds no event for a key only discards the key's edge
/// snapshot: its raw held state persists untouched across the poll.
pub proof fn lemma_unrelated_poll_clears_edge_only(t: KeyTrack, evs: Seq<InputEvent>)
    requires
        forall|i: int| 0 <= i < evs.len()
            ==> evs[i] != InputEvent::KeyDown(t.id) && evs[i] != InputEvent::KeyUp(t.id),
    ensures
        key_polled(t, evs) == reset_key(t),
{
    lemma_unrelated_events_fix_key(reset_key(t), evs);
}

/// Pressing a tracked key that is not held and polling reports just-pressed
/// exactly once: the poll that sees the key-down reports `Some(true)` and
/// holds the key; a later poll with no events reports no edge while the key
/// stays held; the poll that sees the key-up reports `Some(false)` exactly
/// once and releases the key.
pub proof fn lemma_press_release_edges(t: KeyTrack)
    requires
        !t.held,
    ensures
        ({
            let pressed = key_polled(t, seq![InputEvent::KeyDown(t.id)]);
            let idle = key_polled(pressed, Seq::<InputEvent>::empty());
            let released = key_polled(idle, seq![InputEvent::KeyUp(t.id)]);
            &&& pressed.edge == Some(true) && pressed.held
            &&& idle.edge is None && idle.held
            &&& released.edge == Some(false) && !released.held
        }),
{
    reveal_with_fuel(key_after_events, 3);
    let down = seq![InputEvent::KeyDown(t.id)];
    let up = seq![InputEvent::KeyUp(t.id)];
    assert(down.drop_first() =~= Seq::<InputEvent>::empty());
    assert(up.drop_first() =~= Seq::<InputEvent>::empty());
}

} // verus!
