use vstd::prelude::*;

verus! {

/// A set of modifier keys, one bit each.
#[derive(Debug, Clone, Copy, PartialEq, Eq, Hash, Structural)]
pub struct ModMask(pub u32);

/// Modifier bits, as X11 numbers them.
pub const MASK_SHIFT: u32 = 1;
pub const MASK_CONTROL: u32 = 4;
pub const MASK_MOD1: u32 = 8;
pub const MASK_MOD4: u32 = 64;
pub const MASK_MOD5: u32 = 128;

/// One chorded key press: the modifiers held and the key's symbol.
#[derive(Debug, Clone, Copy, PartialEq, Eq, Hash, Structural)]
pub struct Key {
    pub modmask: ModMask,
    pub keysym: u32,
}

impl Key {
    pub fn new(modmask: ModMask, keysym: u32) -> (r: Key)
        ensures
            r == (Key { modmask, keysym }),
    {
        Key { modmask, keysym }
    }
}

/// The modifier bits that `c` names in `meta` (its first entry), if any.
pub open spec fn meta_mask(meta: Seq<(char, u32)>, c: char) -> Option<u32>
    decreases meta.len(),
{
    if meta.len() == 0 {
        None
    } else if meta[0].0 == c {
        Some(meta[0].1)
    } else {
        meta_mask(meta.drop_first(), c)
    }
}

/// One chord written as modifier names each followed by `-`, then the key
/// itself as one character (`H-C-x`): the key's symbol is the character's
/// code.
pub open spec fn parse_chord(cs: Seq<char>, meta: Seq<(char, u32)>) -> Option<Key>
    decreases cs.len(),
{
    if cs.len() == 1 {
        if cs[0] == ' ' {
            None
        } else {
            Some(Key { modmask: ModMask(0), keysym: cs[0] as u32 })
        }
    } else if cs.len() >= 3 && cs[1] == '-' && meta_mask(meta, cs[0]) is Some {
        match parse_chord(cs.subrange(2, cs.len() as int), meta) {
            Some(k) => Some(
                Key {
                    modmask: ModMask(meta_mask(meta, cs[0]).unwrap() | k.modmask.0),
                    keysym: k.keysym,
                },
            ),
            None => None,
        }
    } else {
        None
    }
}

/// The first space at or after `i`, or the length when there is none.
pub open spec fn next_space(cs: Seq<char>, i: int) -> int
    decreases cs.len() - i,
{
    if i >= cs.len() {
        cs.len() as int
    } else if cs[i] == ' ' {
        i
    } else {
        next_space(cs, i + 1)
    }
}

/// The chords written from position `start` on, separated by single
/// spaces.
pub open spec fn parse_keys_from(cs: Seq<char>, meta: Seq<(char, u32)>, start: int) -> Option<
    Seq<Key>,
>
    decreases cs.len() - start,
{
    if start < 0 || start > cs.len() {
        None
    } else {
        let end = next_space(cs, start);
        match parse_chord(cs.subrange(start, end), meta) {
            None => None,
            Some(k) => {
                if end >= cs.len() {
                    Some(seq![k])
                } else if end + 1 > start {
                    match parse_keys_from(cs, meta, end + 1) {
                        Some(rest) => Some(seq![k] + rest),
                        None => None,
                    }
                } else {
                    None
                }
            },
        }
    }
}

proof fn lemma_next_space(cs: Seq<char>, i: int)
    requires
        0 <= i <= cs.len(),
    ensures
        i <= next_space(cs, i) <= cs.len(),
        next_space(cs, i) < cs.len() ==> cs[next_space(cs, i)] == ' ',
        forall|j: int| i <= j < next_space(cs, i) ==> cs[j] != ' ',
    decreases cs.len() - i,
{
    if i < cs.len() && cs[i] != ' ' {
        lemma_next_space(cs, i + 1);
    }
}

fn lookup_meta(meta: &Vec<(char, u32)>, c: char) -> (r: Option<u32>)
    ensures
        r == meta_mask(meta@, c),
{
    let mut i: usize = 0;
    assert(meta@.subrange(0, meta@.len() as int) =~= meta@);
    while i < meta.len()
        invariant
            i <= meta@.len(),
            meta_mask(meta@, c) == meta_mask(meta@.subrange(i as int, meta@.len() as int), c),
        decreases meta@.len() - i,
    {
        let ghost rest = meta@.subrange(i as int, meta@.len() as int);
        assert(rest.drop_first() =~= meta@.subrange(i as int + 1, meta@.len() as int));
        if meta[i].0 == c {
            return Some(meta[i].1);
        }
        i = i + 1;
    }
    None
}

fn parse_chord_at(cs: &Vec<char>, meta: &Vec<(char, u32)>, start: usize, end: usize) -> (r: Option<Key>)
    requires
        start <= end <= cs@.len(),
    ensures
        r == parse_chord(cs@.subrange(start as int, end as int), meta@),
    decreases end - start,
{
    let ghost seg = cs@.subrange(start as int, end as int);
    if end - start == 1 {
        if cs[start] == ' ' {
            None
        } else {
            Some(Key { modmask: ModMask(0), keysym: cs[start] as u32 })
        }
    } else if end - start >= 3 && cs[start + 1] == '-' {
        match lookup_meta(meta, cs[start]) {
            Some(m) => {
                assert(seg.subrange(2, seg.len() as int) =~= cs@.subrange(start as int + 2, end as int));
                match parse_chord_at(cs, meta, start + 2, end) {
                    Some(k) => Some(Key { modmask: ModMask(m | k.modmask.0), keysym: k.keysym }),
                    None => None,
                }
            },
            None => None,
        }
    } else {
        None
    }
}

fn parse_keys_at(cs: &Vec<char>, meta: &Vec<(char, u32)>, start: usize) -> (r: Option<Vec<Key>>)
    requires
        start <= cs@.len(),
    ensures
        match r {
            Some(v) => parse_keys_from(cs@, meta@, start as int) == Some(v@),
            None => parse_keys_from(cs@, meta@, start as int) is None,
        },
    decreases cs@.len() - start,
{
    let mut end = start;
    while end < cs.len() && cs[end] != ' '
        invariant
            start <= end <= cs@.len(),
            next_space(cs@, start as int) == next_space(cs@, end as int),
        decreases cs@.len() - end,
    {
        end = end + 1;
    }
    proof {
        lemma_next_space(cs@, start as int);
        assert(next_space(cs@, start as int) == end);
    }
    let k = match parse_chord_at(cs, meta, start, end) {
        Some(k) => k,
        None => {
            return None;
        },
    };
    if end >= cs.len() {
        let v = vec![k];
        assert(v@ =~= seq![k]);
        return Some(v);
    }
    match parse_keys_at(cs, meta, end + 1) {
        Some(rest) => {
            let mut v = rest;
            let ghost r0 = v@;
            v.insert(0, k);
            assert(v@ =~= seq![k] + r0);
            Some(v)
        },
        None => None,
    }
}

/// Reads a key sequence written as chords separated by single spaces
/// (`"H-b H-q"`), with the modifier names of `meta`. `None` when the text is
/// malformed.
pub fn parse_keys(cs: &Vec<char>, meta: &Vec<(char, u32)>) -> (r: Option<Vec<Key>>)
    ensures
        match r {
            Some(v) => parse_keys_from(cs@, meta@, 0) == Some(v@),
            None => parse_keys_from(cs@, meta@, 0) is None,
        },
{
    parse_keys_at(cs, meta, 0)
}

/// Whether `p` is a prefix of `s` that is shorter than `s`.
pub open spec fn strict_prefix(p: Seq<Key>, s: Seq<Key>) -> bool {
    p.len() < s.len() && s.subrange(0, p.len() as int) == p
}

/// The result of looking a key sequence up.
#[derive(Debug)]
pub enum KeymapEntry<A> {
    /// The sequence is bound to this action.
    Complete(A),
    /// The sequence is the start of some bound sequence.
    Incomplete,
    /// No bound sequence starts with it.
    Unbound,
}

/// Key sequences bound to actions. When a sequence is bound twice, the
/// first binding counts.
#[derive(Debug)]
pub struct Keymap<A> {
    bindings: Vec<(Vec<Key>, A)>,
}

impl<A> Keymap<A> {
    /// The bound sequences, in order.
    pub closed spec fn seqs(&self) -> Seq<Seq<Key>> {
        self.bindings@.map_values(|b: (Vec<Key>, A)| b.0@)
    }

    /// The bound actions, in order.
    pub closed spec fn actions(&self) -> Seq<A> {
        self.bindings@.map_values(|b: (Vec<Key>, A)| b.1)
    }

    pub fn new(bindings: Vec<(Vec<Key>, A)>) -> (r: Self)
        ensures
            r.seqs() == bindings@.map_values(|b: (Vec<Key>, A)| b.0@),
            r.actions() == bindings@.map_values(|b: (Vec<Key>, A)| b.1),
    {
        Keymap { bindings }
    }

    pub fn len(&self) -> (r: usize)
        ensures
            r == self.seqs().len(),
    {
        self.bindings.len()
    }

    /// Looks `seq` up: the action of its first binding, or whether some
    /// bound sequence starts with it.
    pub fn get<'a>(&'a self, seq: &Vec<Key>) -> (r: KeymapEntry<&'a A>)
        ensures
            r matches KeymapEntry::Complete(a) ==> exists|i: int|
                0 <= i < self.seqs().len() && self.seqs()[i] == seq@ && *a == self.actions()[i]
                    && forall|j: int| 0 <= j < i ==> #[trigger] self.seqs()[j] != seq@,
            r is Complete <==> exists|i: int| 0 <= i < self.seqs().len() && #[trigger] self.seqs()[i] == seq@,
            r is Incomplete <==> !(exists|i: int| 0 <= i < self.seqs().len() && #[trigger] self.seqs()[i] == seq@)
                && exists|i: int| 0 <= i < self.seqs().len() && strict_prefix(seq@, #[trigger] self.seqs()[i]),
    {
        let n = self.bindings.len();
        let mut i: usize = 0;
        let mut incomplete = false;
        while i < n
            invariant
                n == self.bindings@.len(),
                i <= n,
                forall|j: int| 0 <= j < i ==> #[trigger] self.seqs()[j] != seq@,
                incomplete <==> exists|j: int| 0 <= j < i && strict_prefix(seq@, #[trigger] self.seqs()[j]),
            decreases n - i,
        {
            let b = &self.bindings[i];
            assert(self.seqs()[i as int] == b.0@);
            if seq.len() == b.0.len() && starts_with(&b.0, seq) {
                assert(b.0@.subrange(0, seq@.len() as int) =~= b.0@);
                assert(self.actions()[i as int] == b.1);
                return KeymapEntry::Complete(&b.1);
            }
            if seq.len() < b.0.len() && starts_with(&b.0, seq) {
                incomplete = true;
            } else {
                proof {
                    if seq@.len() == b.0@.len() {
                        if b.0@ == seq@ {
                            assert(b.0@.subrange(0, seq@.len() as int) =~= b.0@);
                        }
                    }
                }
            }
            i = i + 1;
        }
        if incomplete {
            KeymapEntry::Incomplete
        } else {
            KeymapEntry::Unbound
        }
    }
}

/// Whether `s` begins with `p`.
fn starts_with(s: &Vec<Key>, p: &Vec<Key>) -> (r: bool)
    ensures
        r == (p@.len() <= s@.len() && s@.subrange(0, p@.len() as int) == p@),
{
    if p.len() > s.len() {
        return false;
    }
    let mut k: usize = 0;
    while k < p.len()
        invariant
            p@.len() <= s@.len(),
            k <= p@.len(),
            forall|j: int| 0 <= j < k ==> s@[j] == p@[j],
        decreases p@.len() - k,
    {
        if s[k] != p[k] {
            assert(s@.subrange(0, p@.len() as int)[k as int] != p@[k as int]);
            return false;
        }
        k = k + 1;
    }
    assert(s@.subrange(0, p@.len() as int) =~= p@);
    true
}

/// What happens to a key event.
#[derive(Debug)]
pub enum KeyDecision<A> {
    /// Hand the event to the focused client.
    Forward,
    /// Swallow the event.
    Intercept,
    /// Swallow the event and run the action.
    Run(A),
}

/// Accumulates key presses until they form a bound sequence.
#[derive(Debug)]
pub struct KeySeqMatcher {
    pending: Vec<Key>,
}

impl KeySeqMatcher {
    /// The keys pressed so far in the current chord.
    pub closed spec fn pending_spec(&self) -> Seq<Key> {
        self.pending@
    }

    pub fn new() -> (r: Self)
        ensures
            r.pending_spec() == Seq::<Key>::empty(),
    {
        KeySeqMatcher { pending: Vec::new() }
    }

    pub fn pending(&self) -> (r: &Vec<Key>)
        ensures
            r@ == self.pending_spec(),
    {
        &self.pending
    }

    /// Feeds a key press. A completed sequence runs its action; the start of
    /// a bound sequence is swallowed and kept; anything else resets the
    /// chord and is forwarded if it was the chord's first key, swallowed
    /// otherwise.
    pub fn on_press<'a, A>(&mut self, keymap: &'a Keymap<A>, key: Key) -> (r: KeyDecision<&'a A>)
        ensures
            ({
                let s = old(self).pending_spec().push(key);
                let seqs = keymap.seqs();
                if exists|i: int| 0 <= i < seqs.len() && #[trigger] seqs[i] == s {
                    &&& r matches KeyDecision::Run(a) && exists|i: int|
                        0 <= i < seqs.len() && seqs[i] == s && *a == keymap.actions()[i]
                            && forall|j: int| 0 <= j < i ==> #[trigger] seqs[j] != s
                    &&& final(self).pending_spec() == Seq::<Key>::empty()
                } else if exists|i: int| 0 <= i < seqs.len() && strict_prefix(s, #[trigger] seqs[i]) {
                    &&& r is Intercept
                    &&& final(self).pending_spec() == s
                } else {
                    &&& (if old(self).pending_spec().len() == 0 { r is Forward } else { r is Intercept })
                    &&& final(self).pending_spec() == Seq::<Key>::empty()
                }
            }),
    {
        let was_empty = self.pending.len() == 0;
        self.pending.push(key);
        match keymap.get(&self.pending) {
            KeymapEntry::Complete(a) => {
                self.pending.clear();
                KeyDecision::Run(a)
            },
            KeymapEntry::Incomplete => KeyDecision::Intercept,
            KeymapEntry::Unbound => {
                self.pending.clear();
                if was_empty {
                    KeyDecision::Forward
                } else {
                    KeyDecision::Intercept
                }
            },
        }
    }

    /// A key release is swallowed while a chord is in progress.
    pub fn on_release<A>(&self) -> (r: KeyDecision<A>)
        ensures
            if self.pending_spec().len() == 0 {
                r is Forward
            } else {
                r is Intercept
            },
    {
        if self.pending.len() == 0 {
            KeyDecision::Forward
        } else {
            KeyDecision::Intercept
        }
    }
}

} // verus!
