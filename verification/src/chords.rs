//! Commands made of several keys in a row.

use vstd::prelude::*;

verus! {

/// Whether `needle` is not empty and `hay` ends with it.
pub open spec fn is_suffix(needle: Seq<char>, hay: Seq<char>) -> bool {
    1 <= needle.len() <= hay.len() && hay.subrange(hay.len() - needle.len(), hay.len() as int)
        == needle
}

/// Whether `keys` is the beginning of `of`, and not all of it.
pub open spec fn is_strict_prefix(keys: Seq<char>, of: Seq<char>) -> bool {
    keys.len() < of.len() && of.subrange(0, keys.len() as int) == keys
}

/// The registered sequences as sequences of keys.
pub open spec fn sequences(registered: Seq<Vec<char>>) -> Seq<Seq<char>> {
    Seq::new(registered.len(), |i: int| registered[i]@)
}

/// Whether `keys` holds at least one key and begins a registered sequence
/// without completing it.
pub open spec fn begins_chord(registered: Seq<Seq<char>>, keys: Seq<char>) -> bool {
    keys.len() > 0 && exists|i: int|
        0 <= i < registered.len() && is_strict_prefix(keys, #[trigger] registered[i])
}

/// Whether `keys` ends with a registered sequence.
pub open spec fn completes_chord(registered: Seq<Seq<char>>, keys: Seq<char>) -> bool {
    exists|i: int| 0 <= i < registered.len() && is_suffix(#[trigger] registered[i], keys)
}

/// Whether the sequence registered at `index` is the one that `keys`
/// completes: the longest registered sequence that `keys` ends with, and
/// of several equal ones the first registered.
pub open spec fn is_completed(registered: Seq<Seq<char>>, keys: Seq<char>, index: int) -> bool {
    &&& 0 <= index < registered.len()
    &&& is_suffix(registered[index], keys)
    &&& forall|j: int|
        0 <= j < registered.len() && is_suffix(#[trigger] registered[j], keys)
            ==> registered[j].len() < registered[index].len() || (registered[j].len()
            == registered[index].len() && index <= j)
}

/// The place of the registered sequence that `keys` completes.
pub open spec fn completed_index(registered: Seq<Seq<char>>, keys: Seq<char>) -> int {
    choose|index: int| is_completed(registered, keys, index)
}

/// No two places hold the sequence that `keys` completes.
pub proof fn lemma_completed_unique(registered: Seq<Seq<char>>, keys: Seq<char>, index: int)
    requires
        is_completed(registered, keys, index),
    ensures
        completed_index(registered, keys) == index,
        completes_chord(registered, keys),
{
}

/// What a key does to the keys held back, and what is held back after it.
pub open spec fn chord_outcome(registered: Seq<Seq<char>>, buffer: Seq<char>, key: char) -> (
    ChordOutcome,
    Seq<char>,
) {
    let keys = buffer.push(key);
    if completes_chord(registered, keys) {
        (ChordOutcome::Matched(completed_index(registered, keys) as usize), Seq::empty())
    } else if begins_chord(registered, keys) {
        (ChordOutcome::Pending, keys)
    } else if begins_chord(registered, seq![key]) {
        (ChordOutcome::Pending, seq![key])
    } else {
        (ChordOutcome::Unbound, Seq::empty())
    }
}

/// The keys held back are bounded: they are fewer than the keys of some
/// registered sequence.
pub proof fn lemma_held_keys_are_few(registered: Seq<Seq<char>>, keys: Seq<char>)
    requires
        begins_chord(registered, keys),
    ensures
        exists|i: int| 0 <= i < registered.len() && keys.len() < (#[trigger] registered[i]).len(),
{
}

/// With nothing held back, a key that begins a registered sequence and is
/// not one itself is held back.
pub proof fn lemma_first_key_is_held(registered: Seq<Seq<char>>, key: char)
    requires
        begins_chord(registered, seq![key]),
        !completes_chord(registered, seq![key]),
    ensures
        chord_outcome(registered, Seq::empty(), key) == (ChordOutcome::Pending, seq![key]),
{
    assert(Seq::<char>::empty().push(key) =~= seq![key]);
}

/// A key that makes the keys held back into a registered sequence matches
/// that sequence, at the first place at which it is registered, and no
/// other; nothing is held back any more.
pub proof fn lemma_whole_sequence_is_matched(
    registered: Seq<Seq<char>>,
    held: Seq<char>,
    key: char,
    index: int,
)
    requires
        0 <= index < registered.len(),
        registered[index] == held.push(key),
        forall|j: int| 0 <= j < index ==> registered[j] != held.push(key),
    ensures
        chord_outcome(registered, held, key) == (
            ChordOutcome::Matched(index as usize),
            Seq::<char>::empty(),
        ),
{
    let keys = held.push(key);
    assert(keys.subrange(0, keys.len() as int) =~= keys);
    assert forall|j: int|
        0 <= j < registered.len() && is_suffix(#[trigger] registered[j], keys) implies registered[j].len()
        < registered[index].len() || (registered[j].len() == registered[index].len() && index
        <= j) by {
        if registered[j].len() == keys.len() {
            assert(keys.subrange(0, keys.len() as int) =~= keys);
            assert(registered[j] == keys);
        }
    }
    assert(is_completed(registered, keys, index));
    lemma_completed_unique(registered, keys, index);
}

/// A key that neither completes nor continues what is held back drops the
/// keys held back and is then taken exactly as if nothing had been held
/// back: none of the dropped keys is held any more.
pub proof fn lemma_unmatched_key_starts_afresh(
    registered: Seq<Seq<char>>,
    held: Seq<char>,
    key: char,
)
    requires
        !completes_chord(registered, held.push(key)),
        !begins_chord(registered, held.push(key)),
    ensures
        chord_outcome(registered, held, key) == chord_outcome(registered, Seq::empty(), key),
        chord_outcome(registered, held, key).1 == Seq::<char>::empty() || chord_outcome(
            registered,
            held,
            key,
        ).1 == seq![key],
{
    let keys = held.push(key);
    let alone = Seq::<char>::empty().push(key);
    assert(alone =~= seq![key]);
    if completes_chord(registered, alone) {
        let i = choose|i: int|
            0 <= i < registered.len() && is_suffix(#[trigger] registered[i], alone);
        assert(registered[i] =~= alone);
        assert(keys.subrange(keys.len() - 1, keys.len() as int) =~= alone);
        assert(is_suffix(registered[i], keys));
    }
}

/// What a key did to the pending keys.
#[derive(Debug, Clone, Copy, PartialEq, Eq, Structural)]
pub enum ChordOutcome {
    /// The key completed the sequence registered at this place.
    Matched(usize),
    /// The key begins or continues a sequence; it is held back.
    Pending,
    /// The key belongs to no sequence and is to be handled by itself.
    Unbound,
}

/// The registered key sequences and the keys pressed so far towards one of
/// them.
#[derive(Debug)]
pub struct KeyChords {
    pub registered: Vec<Vec<char>>,
    /// The keys held back; never as long as the longest registered
    /// sequence.
    pub buffer: Vec<char>,
}

/// Whether `hay` ends with `needle`, and `needle` is not empty.
pub fn ends_with(hay: &Vec<char>, needle: &Vec<char>) -> (res: bool)
    ensures
        res == is_suffix(needle@, hay@),
{
    if needle.len() == 0 || needle.len() > hay.len() {
        return false;
    }
    let start = hay.len() - needle.len();
    let mut i: usize = 0;
    while i < needle.len()
        invariant
            i <= needle@.len(),
            needle@.len() <= hay@.len(),
            start == hay@.len() - needle@.len(),
            hay@.len() <= usize::MAX,
            forall|k: int| 0 <= k < i ==> hay@[start + k] == needle@[k],
        decreases needle@.len() - i,
    {
        if hay[start + i] != needle[i] {
            return false;
        }
        i += 1;
    }
    proof {
        assert(hay@.subrange(start as int, hay@.len() as int) =~= needle@);
    }
    true
}

/// Whether `keys` is the beginning of `of`, and not all of it.
pub fn begins(of: &Vec<char>, keys: &Vec<char>) -> (res: bool)
    ensures
        res == is_strict_prefix(keys@, of@),
{
    if keys.len() >= of.len() {
        return false;
    }
    let mut i: usize = 0;
    while i < keys.len()
        invariant
            i <= keys@.len(),
            keys@.len() < of@.len(),
            forall|k: int| 0 <= k < i ==> of@[k] == keys@[k],
        decreases keys@.len() - i,
    {
        if of[i] != keys[i] {
            return false;
        }
        i += 1;
    }
    proof {
        assert(of@.subrange(0, keys@.len() as int) =~= keys@);
    }
    true
}

impl KeyChords {
    /// The keys held back begin a registered sequence, or none is held
    /// back.
    pub open spec fn wf(&self) -> bool {
        self.buffer@.len() == 0 || begins_chord(sequences(self.registered@), self.buffer@)
    }

    /// The given sequences with no key pressed yet.
    pub fn new(registered: Vec<Vec<char>>) -> (chords: Self)
        ensures
            chords.registered == registered,
            chords.buffer@.len() == 0,
            chords.wf(),
    {
        KeyChords { registered, buffer: Vec::new() }
    }

    /// Whether keys are held back.
    pub fn is_pending(&self) -> (res: bool)
        ensures
            res == (self.buffer@.len() > 0),
    {
        self.buffer.len() > 0
    }

    /// Whether `keys` begins a registered sequence without completing it.
    pub fn begins_any(&self, keys: &Vec<char>) -> (res: bool)
        ensures
            res == begins_chord(sequences(self.registered@), keys@),
    {
        if keys.len() == 0 {
            return false;
        }
        let mut i: usize = 0;
        while i < self.registered.len()
            invariant
                i <= self.registered@.len(),
                keys@.len() > 0,
                forall|k: int|
                    0 <= k < i ==> !is_strict_prefix(
                        keys@,
                        #[trigger] sequences(self.registered@)[k],
                    ),
            decreases self.registered@.len() - i,
        {
            if begins(&self.registered[i], keys) {
                proof {
                    assert(is_strict_prefix(keys@, sequences(self.registered@)[i as int]));
                }
                return true;
            }
            i += 1;
        }
        false
    }

    /// The registered sequence that `keys` completes, if there is one.
    pub fn completed(&self, keys: &Vec<char>) -> (res: Option<usize>)
        ensures
            res is Some <==> completes_chord(sequences(self.registered@), keys@),
            res matches Some(index) ==> is_completed(
                sequences(self.registered@),
                keys@,
                index as int,
            ),
    {
        let ghost all = sequences(self.registered@);
        let mut best: Option<usize> = None;
        let mut i: usize = 0;
        while i < self.registered.len()
            invariant
                i <= self.registered@.len(),
                all == sequences(self.registered@),
                best matches Some(index) ==> index < i && is_suffix(all[index as int], keys@)
                    && forall|j: int|
                    0 <= j < i && is_suffix(#[trigger] all[j], keys@) ==> all[j].len()
                        < all[index as int].len() || (all[j].len() == all[index as int].len()
                        && index <= j),
                best is None ==> forall|j: int| 0 <= j < i ==> !is_suffix(#[trigger] all[j], keys@),
            decreases self.registered@.len() - i,
        {
            if ends_with(keys, &self.registered[i]) {
                let longer = match best {
                    Some(index) => self.registered[i].len() > self.registered[index].len(),
                    None => true,
                };
                if longer {
                    best = Some(i);
                }
            }
            i += 1;
        }
        best
    }

    /// Forgets the keys held back. Returns whether there were any.
    pub fn abort(&mut self) -> (was_pending: bool)
        ensures
            was_pending == (old(self).buffer@.len() > 0),
            final(self).buffer@.len() == 0,
            final(self).registered == old(self).registered,
            final(self).wf(),
    {
        let was_pending = self.buffer.len() > 0;
        self.buffer.clear();
        was_pending
    }

    /// Takes a key. If the keys held back and this one end with a
    /// registered sequence, that sequence is matched and nothing is held
    /// back any more. If not, and they begin a registered sequence, the key
    /// is held back with them. If they do not, the keys held back are
    /// dropped and the key is looked at by itself: it is held back if it
    /// begins a sequence, and is unbound if it does not.
    pub fn press(&mut self, key: char) -> (outcome: ChordOutcome)
        requires
            old(self).wf(),
        ensures
            final(self).wf(),
            final(self).registered == old(self).registered,
            (outcome, final(self).buffer@) == chord_outcome(
                sequences(old(self).registered@),
                old(self).buffer@,
                key,
            ),
            match outcome {
                ChordOutcome::Matched(index) => is_completed(
                    sequences(old(self).registered@),
                    old(self).buffer@.push(key),
                    index as int,
                ) && final(self).buffer@.len() == 0,
                ChordOutcome::Pending => !completes_chord(
                    sequences(old(self).registered@),
                    old(self).buffer@.push(key),
                ) && final(self).buffer@ == (if begins_chord(
                    sequences(old(self).registered@),
                    old(self).buffer@.push(key),
                ) {
                    old(self).buffer@.push(key)
                } else {
                    seq![key]
                }) && begins_chord(sequences(old(self).registered@), final(self).buffer@),
                ChordOutcome::Unbound => !completes_chord(
                    sequences(old(self).registered@),
                    old(self).buffer@.push(key),
                ) && !begins_chord(sequences(old(self).registered@), old(self).buffer@.push(key))
                    && !begins_chord(sequences(old(self).registered@), seq![key])
                    && final(self).buffer@.len() == 0,
            },
    {
        self.buffer.push(key);
        match self.completed(&self.buffer) {
            Some(index) => {
                self.buffer.clear();
                ChordOutcome::Matched(index)
            },
            None => {
                if self.begins_any(&self.buffer) {
                    ChordOutcome::Pending
                } else {
                    let fresh = self.buffer.len() == 1;
                    self.buffer.clear();
                    if fresh {
                        proof {
                            assert(old(self).buffer@.push(key) =~= seq![key]);
                        }
                        ChordOutcome::Unbound
                    } else {
                        self.buffer.push(key);
                        if self.begins_any(&self.buffer) {
                            ChordOutcome::Pending
                        } else {
                            self.buffer.clear();
                            ChordOutcome::Unbound
                        }
                    }
                }
            },
        }
    }
}

} // verus!
