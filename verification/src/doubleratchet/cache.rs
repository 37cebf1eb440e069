use vstd::prelude::*;
use crate::bytes;
use crate::error::Error;

verus! {

/// What a skipped-key entry holds.
pub struct EntryView {
    /// The peer's ratchet public key of the chain that the key belongs to.
    pub ratchet_public: Seq<u8>,
    /// The counter of the message that the key is for.
    pub counter: u64,
    /// The message key.
    pub message_key: Seq<u8>,
}

/// What is remembered of one ratchet generation of the peer.
pub struct GenerationView {
    /// The peer's ratchet public key of the generation.
    pub ratchet_public: Seq<u8>,
}

/// A run of counters of one generation whose keys were evicted.
pub struct ExpiredView {
    /// The peer's ratchet public key of the generation.
    pub ratchet_public: Seq<u8>,
    /// The first counter of the run.
    pub first: u64,
    /// The last counter of the run.
    pub last: u64,
}

/// What a cache holds: the skipped keys, oldest first; the peer's ratchet
/// generations, oldest first; the two bounds, on the skipped keys and on
/// the generations that they may belong to; and which keys were lost.
pub struct CacheView {
    /// The skipped keys, in the order in which they were skipped.
    pub entries: Seq<EntryView>,
    /// The counters whose keys were lost for good, by generation, in the
    /// order in which they were lost: keys that were evicted, and keys that
    /// can no longer be derived since their chain ended.
    pub expired: Seq<ExpiredView>,
    /// The peer's ratchet generations that the session has seen, the
    /// current one last. The skipped keys of the newest `max_generations`
    /// of them are kept.
    pub generations: Seq<GenerationView>,
    /// The largest number of skipped keys that are kept.
    pub max_entries: usize,
    /// The largest number of generations whose skipped keys are kept.
    pub max_generations: usize,
}

/// Whether the entry is the one for the ratchet key and the counter.
pub open spec fn is_for(entry: EntryView, ratchet_public: Seq<u8>, counter: u64) -> bool {
    entry.ratchet_public == ratchet_public && entry.counter == counter
}

/// Whether no entry is for the ratchet key and the counter.
pub open spec fn lacks(entries: Seq<EntryView>, ratchet_public: Seq<u8>, counter: u64) -> bool {
    forall|i: int| 0 <= i < entries.len() ==> !is_for(#[trigger] entries[i], ratchet_public, counter)
}

/// Whether no two entries are for the same ratchet key and counter.
pub open spec fn distinct(entries: Seq<EntryView>) -> bool {
    forall|i: int, j: int|
        0 <= i < j < entries.len() ==> !is_for(
            #[trigger] entries[i],
            (#[trigger] entries[j]).ratchet_public,
            entries[j].counter,
        )
}

/// Whether the run holds the counter of the generation.
pub open spec fn covers(run: ExpiredView, ratchet_public: Seq<u8>, counter: u64) -> bool {
    run.ratchet_public == ratchet_public && run.first <= counter <= run.last
}

/// Whether the key for the ratchet key and the counter was evicted.
pub open spec fn has_expired(expired: Seq<ExpiredView>, ratchet_public: Seq<u8>, counter: u64)
    -> bool {
    exists|k: int| 0 <= k < expired.len() && covers(#[trigger] expired[k], ratchet_public, counter)
}

/// What was evicted, after the key for the ratchet key and the counter was
/// evicted too: the counter continues the last run where it follows it,
/// and begins a run of its own where it does not.
pub open spec fn spec_expire(expired: Seq<ExpiredView>, ratchet_public: Seq<u8>, counter: u64)
    -> Seq<ExpiredView> {
    if expired.len() > 0 && expired.last().ratchet_public == ratchet_public
        && expired.last().first <= expired.last().last && expired.last().last + 1 == counter {
        expired.drop_last().push(
            ExpiredView { ratchet_public, first: expired.last().first, last: counter },
        )
    } else {
        expired.push(ExpiredView { ratchet_public, first: counter, last: counter })
    }
}

/// What was evicted, after every entry of the ratchet key was evicted
/// too, oldest first.
pub open spec fn spec_retire(
    expired: Seq<ExpiredView>,
    entries: Seq<EntryView>,
    ratchet_public: Seq<u8>,
) -> Seq<ExpiredView>
    decreases entries.len(),
{
    if entries.len() == 0 {
        expired
    } else {
        let rest = spec_retire(expired, entries.drop_last(), ratchet_public);
        if entries.last().ratchet_public == ratchet_public {
            spec_expire(rest, ratchet_public, entries.last().counter)
        } else {
            rest
        }
    }
}

/// Whether no two generations have the same ratchet key.
pub open spec fn distinct_generations(generations: Seq<GenerationView>) -> bool {
    forall|a: int, b: int|
        0 <= a < b < generations.len() ==> (#[trigger] generations[a]).ratchet_public != (
        #[trigger] generations[b]).ratchet_public
}

/// The index of the first entry for the ratchet key and the counter.
pub open spec fn spec_position(entries: Seq<EntryView>, ratchet_public: Seq<u8>, counter: u64)
    -> Option<int>
    decreases entries.len(),
{
    if entries.len() == 0 {
        None
    } else {
        match spec_position(entries.drop_last(), ratchet_public, counter) {
            Some(i) => Some(i),
            None => if entries.last().ratchet_public == ratchet_public && entries.last().counter
                == counter {
                Some(entries.len() - 1)
            } else {
                None
            },
        }
    }
}

/// The index of the first generation with the ratchet key.
pub open spec fn spec_generation(generations: Seq<GenerationView>, ratchet_public: Seq<u8>)
    -> Option<int>
    decreases generations.len(),
{
    if generations.len() == 0 {
        None
    } else {
        match spec_generation(generations.drop_last(), ratchet_public) {
            Some(i) => Some(i),
            None => if generations.last().ratchet_public == ratchet_public {
                Some(generations.len() - 1)
            } else {
                None
            },
        }
    }
}

/// The entries without those of the ratchet key.
pub open spec fn spec_purge(entries: Seq<EntryView>, ratchet_public: Seq<u8>) -> Seq<EntryView>
    decreases entries.len(),
{
    if entries.len() == 0 {
        entries
    } else {
        let rest = spec_purge(entries.drop_last(), ratchet_public);
        if entries.last().ratchet_public == ratchet_public {
            rest
        } else {
            rest.push(entries.last())
        }
    }
}

impl CacheView {
    /// The bound on the skipped keys holds, and the keys of at least one
    /// generation can be kept.
    pub open spec fn wf(self) -> bool {
        &&& self.max_generations >= 1
        &&& self.entries.len() <= self.max_entries
    }

    /// The index of the entry for the ratchet key and the counter, if one is
    /// cached.
    pub open spec fn position(self, ratchet_public: Seq<u8>, counter: u64) -> Option<int> {
        spec_position(self.entries, ratchet_public, counter)
    }

    /// The cache without the entry at `index`.
    pub open spec fn consume(self, index: int) -> CacheView {
        CacheView { entries: self.entries.remove(index), ..self }
    }

    /// The cache after a key was skipped: the entry is the newest, and where
    /// that exceeds the bound the oldest entry is evicted, and its counter
    /// is remembered as evicted.
    pub open spec fn store(self, entry: EntryView) -> CacheView {
        let pushed = self.entries.push(entry);
        if pushed.len() > self.max_entries {
            CacheView {
                entries: pushed.remove(0),
                expired: spec_expire(self.expired, pushed[0].ratchet_public, pushed[0].counter),
                ..self
            }
        } else {
            CacheView { entries: pushed, ..self }
        }
    }

    /// The cache after the chain of the current generation ended with the
    /// messages below `passed`: no key of a later message of the generation
    /// can ever be derived, which is remembered as if they were evicted.
    pub open spec fn close(self, passed: u64) -> CacheView {
        CacheView {
            expired: self.expired.push(
                ExpiredView {
                    ratchet_public: self.generations.last().ratchet_public,
                    first: passed,
                    last: u64::MAX,
                },
            ),
            ..self
        }
    }

    /// The ratchet key of the generation that leaves the bound when one
    /// more generation is opened, if one does: the oldest of those whose
    /// keys are kept.
    pub open spec fn leaving(self) -> Option<Seq<u8>> {
        if self.generations.len() >= self.max_generations {
            Some(self.generations[self.generations.len() - self.max_generations].ratchet_public)
        } else {
            None
        }
    }

    /// The cache after the peer moved to a new ratchet key: the generation
    /// is the current one. Where that exceeds the bound on the generations
    /// whose keys are kept, the oldest of them leaves: its ratchet key
    /// stays known, and every cached key of it is evicted and remembered
    /// as evicted.
    pub open spec fn open_generation(self, ratchet_public: Seq<u8>) -> CacheView {
        let pushed = self.generations.push(GenerationView { ratchet_public });
        match self.leaving() {
            Some(retired) => CacheView {
                entries: spec_purge(self.entries, retired),
                generations: pushed,
                expired: spec_retire(self.expired, self.entries, retired),
                ..self
            },
            None => CacheView { generations: pushed, ..self },
        }
    }

    /// Whether the ratchet key is that of a generation whose skipped keys
    /// are kept: one of the newest `max_generations`.
    pub open spec fn retains(self, ratchet_public: Seq<u8>) -> bool {
        exists|g: int|
            0 <= g < self.generations.len() && self.generations.len() - g <= self.max_generations
                && (#[trigger] self.generations[g]).ratchet_public == ratchet_public
    }

    /// Whether the cache is in order for a receiving chain that has passed
    /// the messages below `receiving_counter`:
    ///
    /// - no two generations have the same ratchet key;
    /// - no two entries are for the same ratchet key and counter;
    /// - the entries of the current generation are for messages that the
    ///   receiving chain has passed;
    /// - every entry belongs to one of the newest generations, as many as
    ///   the bound on the generations allows;
    /// - what was evicted of the current generation, the receiving chain
    ///   has passed;
    /// - no entry is for a key that was evicted;
    /// - what was evicted belongs to a known generation.
    pub open spec fn in_order(self, receiving_counter: u64) -> bool {
        let current = self.generations.last().ratchet_public;
        &&& distinct_generations(self.generations)
        &&& distinct(self.entries)
        &&& forall|i: int|
            0 <= i < self.entries.len() && (#[trigger] self.entries[i]).ratchet_public == current
                ==> self.entries[i].counter < receiving_counter
        &&& forall|i: int|
            0 <= i < self.entries.len() ==> self.retains(
                (#[trigger] self.entries[i]).ratchet_public,
            )
        &&& forall|n: u64| #[trigger] has_expired(self.expired, current, n) ==> n < receiving_counter
        &&& forall|i: int|
            0 <= i < self.entries.len() ==> !has_expired(
                self.expired,
                (#[trigger] self.entries[i]).ratchet_public,
                self.entries[i].counter,
            )
        &&& forall|p: Seq<u8>, n: u64| #[trigger] has_expired(self.expired, p, n) ==> self.knows(p)
    }

    /// Whether the ratchet key is that of the current generation.
    pub open spec fn is_current(self, ratchet_public: Seq<u8>) -> bool {
        self.generations.len() > 0 && self.generations.last().ratchet_public == ratchet_public
    }

    /// Whether the ratchet key is that of a generation that the session has
    /// seen, whether its skipped keys are still kept or not.
    pub open spec fn knows(self, ratchet_public: Seq<u8>) -> bool {
        spec_generation(self.generations, ratchet_public).is_some()
    }

    /// The error for a message of a known generation whose key is not
    /// cached and cannot be derived: the key has expired where it was
    /// evicted, and the message is a duplicate otherwise, its key having
    /// been handed out before.
    pub open spec fn miss(self, ratchet_public: Seq<u8>, counter: u64) -> Error {
        if has_expired(self.expired, ratchet_public, counter) {
            Error::MessageKeyExpired
        } else {
            Error::DuplicateMessage
        }
    }
}

/// A message key that was derived when its chain advanced past a message
/// that had not arrived yet.
pub struct SkippedKeyEntry {
    ratchet_public: Vec<u8>,
    counter: u64,
    message_key: Vec<u8>,
}

impl View for SkippedKeyEntry {
    type V = EntryView;

    closed spec fn view(&self) -> EntryView {
        EntryView {
            ratchet_public: self.ratchet_public@,
            counter: self.counter,
            message_key: self.message_key@,
        }
    }
}

impl SkippedKeyEntry {
    /// An entry for the message `counter` of the chain of `ratchet_public`.
    pub fn new(ratchet_public: Vec<u8>, counter: u64, message_key: Vec<u8>) -> (r: SkippedKeyEntry)
        ensures
            r@ == (EntryView {
                ratchet_public: ratchet_public@,
                counter,
                message_key: message_key@,
            }),
    {
        SkippedKeyEntry { ratchet_public, counter, message_key }
    }

    /// The peer's ratchet public key of the chain that the key belongs to.
    pub fn ratchet_public(&self) -> (r: &[u8])
        ensures
            r@ == self@.ratchet_public,
    {
        self.ratchet_public.as_slice()
    }

    /// The counter of the message that the key is for.
    pub fn counter(&self) -> (r: u64)
        ensures
            r == self@.counter,
    {
        self.counter
    }

    /// The message key.
    pub fn message_key(&self) -> (r: &[u8])
        ensures
            r@ == self@.message_key,
    {
        self.message_key.as_slice()
    }

    /// Takes the message key out of the entry.
    pub fn into_message_key(self) -> (r: Vec<u8>)
        ensures
            r@ == self@.message_key,
    {
        bytes::copy(self.message_key.as_slice())
    }
}

impl Drop for SkippedKeyEntry {
    /// Overwrites the message key with zeros when it is dropped.
    fn drop(&mut self)
        opens_invariants none
        no_unwind
    {
        crate::aws_lc::zeroize(&mut self.message_key);
    }
}

/// One ratchet generation of the peer.
pub struct Generation {
    ratchet_public: Vec<u8>,
}

impl View for Generation {
    type V = GenerationView;

    closed spec fn view(&self) -> GenerationView {
        GenerationView { ratchet_public: self.ratchet_public@ }
    }
}

impl Generation {
    /// The generation of a ratchet key.
    pub fn new(ratchet_public: Vec<u8>) -> (r: Generation)
        ensures
            r@ == (GenerationView { ratchet_public: ratchet_public@ }),
    {
        Generation { ratchet_public }
    }

    /// The peer's ratchet public key of the generation.
    pub fn ratchet_public(&self) -> (r: &[u8])
        ensures
            r@ == self@.ratchet_public,
    {
        self.ratchet_public.as_slice()
    }
}

/// A run of counters of one generation whose keys were evicted.
pub struct Expired {
    ratchet_public: Vec<u8>,
    first: u64,
    last: u64,
}

impl View for Expired {
    type V = ExpiredView;

    closed spec fn view(&self) -> ExpiredView {
        ExpiredView { ratchet_public: self.ratchet_public@, first: self.first, last: self.last }
    }
}

impl Expired {
    /// The run of the counters from `first` to `last` of a generation.
    pub fn new(ratchet_public: Vec<u8>, first: u64, last: u64) -> (r: Expired)
        ensures
            r@ == (ExpiredView { ratchet_public: ratchet_public@, first, last }),
    {
        Expired { ratchet_public, first, last }
    }

    /// The peer's ratchet public key of the generation.
    pub fn ratchet_public(&self) -> (r: &[u8])
        ensures
            r@ == self@.ratchet_public,
    {
        self.ratchet_public.as_slice()
    }

    /// The first counter of the run.
    pub fn first(&self) -> (r: u64)
        ensures
            r == self@.first,
    {
        self.first
    }

    /// The last counter of the run.
    pub fn last(&self) -> (r: u64)
        ensures
            r == self@.last,
    {
        self.last
    }
}

/// The views of the runs.
pub open spec fn expired_views(expired: Seq<Expired>) -> Seq<ExpiredView> {
    Seq::new(expired.len(), |i: int| expired[i]@)
}

/// The views of the entries.
pub open spec fn entry_views(entries: Seq<SkippedKeyEntry>) -> Seq<EntryView> {
    Seq::new(entries.len(), |i: int| entries[i]@)
}

/// The views of the generations.
pub open spec fn generation_views(generations: Seq<Generation>) -> Seq<GenerationView> {
    Seq::new(generations.len(), |i: int| generations[i]@)
}

/// The bounded cache of skipped message keys.
///
/// Keys are evicted oldest generation first, then oldest counter. What is
/// evicted never comes back.
pub struct SkippedKeys {
    entries: Vec<SkippedKeyEntry>,
    expired: Vec<Expired>,
    generations: Vec<Generation>,
    max_entries: usize,
    max_generations: usize,
}

impl View for SkippedKeys {
    type V = CacheView;

    closed spec fn view(&self) -> CacheView {
        CacheView {
            entries: entry_views(self.entries@),
            expired: expired_views(self.expired@),
            generations: generation_views(self.generations@),
            max_entries: self.max_entries,
            max_generations: self.max_generations,
        }
    }
}

impl SkippedKeys {
    /// An empty cache with the two bounds and no generation.
    ///
    /// A bound of no generation at all is raised to one: the keys of the
    /// current generation are always kept.
    pub fn new(max_entries: usize, max_generations: usize) -> (r: SkippedKeys)
        ensures
            r@ == (CacheView {
                entries: Seq::<EntryView>::empty(),
                expired: Seq::<ExpiredView>::empty(),
                generations: Seq::<GenerationView>::empty(),
                max_entries,
                max_generations: if max_generations == 0 {
                    1usize
                } else {
                    max_generations
                },
            }),
            r@.wf(),
    {
        let r = SkippedKeys {
            entries: Vec::new(),
            expired: Vec::new(),
            generations: Vec::new(),
            max_entries,
            max_generations: if max_generations == 0 {
                1
            } else {
                max_generations
            },
        };
        assert(r@.entries =~= Seq::<EntryView>::empty());
        assert(r@.expired =~= Seq::<ExpiredView>::empty());
        assert(r@.generations =~= Seq::<GenerationView>::empty());
        r
    }

    /// A cache with the given contents, whatever they are.
    pub(crate) fn unchecked(
        entries: Vec<SkippedKeyEntry>,
        expired: Vec<Expired>,
        generations: Vec<Generation>,
        max_entries: usize,
        max_generations: usize,
    ) -> (r: SkippedKeys)
        ensures
            r@ == (CacheView {
                entries: entry_views(entries@),
                expired: expired_views(expired@),
                generations: generation_views(generations@),
                max_entries,
                max_generations,
            }),
    {
        SkippedKeys { entries, expired, generations, max_entries, max_generations }
    }

    /// The number of runs of evicted counters.
    pub fn expired_count(&self) -> (r: usize)
        ensures
            r == self@.expired.len(),
    {
        self.expired.len()
    }

    /// The run of evicted counters at `index`, oldest first.
    pub fn expired_run(&self, index: usize) -> (r: &Expired)
        requires
            index < self@.expired.len(),
        ensures
            r@ == self@.expired[index as int],
    {
        &self.expired[index]
    }

    /// Whether the key for the ratchet key and the counter was evicted.
    pub fn has_expired(&self, ratchet_public: &[u8], counter: u64) -> (r: bool)
        ensures
            r == has_expired(self@.expired, ratchet_public@, counter),
    {
        let mut k: usize = 0;
        while k < self.expired.len()
            invariant
                k <= self.expired@.len(),
                forall|x: int|
                    0 <= x < k ==> !covers(#[trigger] self@.expired[x], ratchet_public@, counter),
            decreases self.expired@.len() - k,
        {
            let run = &self.expired[k];
            if run.first <= counter && counter <= run.last && bytes::bytes_eq(
                run.ratchet_public.as_slice(),
                ratchet_public,
            ) {
                assert(covers(self@.expired[k as int], ratchet_public@, counter));
                return true;
            }
            k += 1;
        }
        false
    }

    /// Remembers that the key for the ratchet key and the counter was
    /// evicted.
    fn expire(&mut self, ratchet_public: &[u8], counter: u64)
        ensures
            final(self)@ == (CacheView {
                expired: spec_expire(old(self)@.expired, ratchet_public@, counter),
                ..old(self)@
            }),
    {
        let n = self.expired.len();
        let ghost before = self@.expired;
        if n > 0 {
            let last = &self.expired[n - 1];
            if last.first <= last.last && last.last < counter && last.last + 1 == counter
                && bytes::bytes_eq(last.ratchet_public.as_slice(), ratchet_public) {
                let first = last.first;
                self.expired.set(
                    n - 1,
                    Expired { ratchet_public: bytes::copy(ratchet_public), first, last: counter },
                );
                assert(self@.expired =~= spec_expire(before, ratchet_public@, counter));
                return ;
            }
        }
        self.expired.push(
            Expired { ratchet_public: bytes::copy(ratchet_public), first: counter, last: counter },
        );
        assert(self@.expired =~= spec_expire(before, ratchet_public@, counter));
    }

    /// Whether the cache keeps its bounds.
    pub fn is_wf(&self) -> (r: bool)
        ensures
            r == self@.wf(),
    {
        self.max_generations >= 1 && self.entries.len() <= self.max_entries
    }

    /// Whether no entry before the entry `index` is for the same ratchet
    /// key and counter.
    fn is_first_of_its_kind(&self, index: usize) -> (r: bool)
        requires
            index < self@.entries.len(),
        ensures
            r == (forall|i: int|
                0 <= i < index ==> !is_for(
                    #[trigger] self@.entries[i],
                    self@.entries[index as int].ratchet_public,
                    self@.entries[index as int].counter,
                )),
    {
        let entry = &self.entries[index];
        let mut i: usize = 0;
        while i < index
            invariant
                i <= index,
                index < self.entries@.len(),
                *entry == self.entries@[index as int],
                forall|k: int|
                    0 <= k < i ==> !is_for(
                        #[trigger] self@.entries[k],
                        self@.entries[index as int].ratchet_public,
                        self@.entries[index as int].counter,
                    ),
            decreases index - i,
        {
            let other = &self.entries[i];
            if other.counter == entry.counter && bytes::bytes_eq(
                other.ratchet_public.as_slice(),
                entry.ratchet_public.as_slice(),
            ) {
                assert(is_for(
                    self@.entries[i as int],
                    self@.entries[index as int].ratchet_public,
                    self@.entries[index as int].counter,
                ));
                return false;
            }
            i += 1;
        }
        true
    }

    /// Whether no generation before the generation `index` has the same
    /// ratchet key.
    fn is_first_with_its_key(&self, index: usize) -> (r: bool)
        requires
            index < self@.generations.len(),
        ensures
            r == (forall|a: int|
                0 <= a < index ==> (#[trigger] self@.generations[a]).ratchet_public
                    != self@.generations[index as int].ratchet_public),
    {
        let mut a: usize = 0;
        while a < index
            invariant
                a <= index,
                index < self.generations@.len(),
                forall|x: int|
                    0 <= x < a ==> (#[trigger] self@.generations[x]).ratchet_public
                        != self@.generations[index as int].ratchet_public,
            decreases index - a,
        {
            if bytes::bytes_eq(
                self.generations[a].ratchet_public.as_slice(),
                self.generations[index].ratchet_public.as_slice(),
            ) {
                assert(self@.generations[a as int].ratchet_public
                    == self@.generations[index as int].ratchet_public);
                return false;
            }
            a += 1;
        }
        true
    }

    /// Whether the cache is in order for a receiving chain that has passed
    /// the messages below `receiving_counter`.
    pub fn is_in_order(&self, receiving_counter: u64) -> (r: bool)
        requires
            self@.generations.len() >= 1,
        ensures
            r == self@.in_order(receiving_counter),
    {
        let g = self.generations.len();
        let n = self.entries.len();
        let ghost current = self@.generations.last().ratchet_public;
        let mut k: usize = 0;
        while k < g
            invariant
                k <= g,
                g == self.generations@.len(),
                g >= 1,
                current == self@.generations.last().ratchet_public,
                forall|x: int, y: int|
                    0 <= x < y < k ==> (#[trigger] self@.generations[x]).ratchet_public != (
                    #[trigger] self@.generations[y]).ratchet_public,
            decreases g - k,
        {
            if !self.is_first_with_its_key(k) {
                let ghost x = choose|x: int|
                    0 <= x < k && (#[trigger] self@.generations[x]).ratchet_public
                        == self@.generations[k as int].ratchet_public;
                assert(!distinct_generations(self@.generations)) by {
                    if distinct_generations(self@.generations) {
                        assert(self@.generations[x].ratchet_public
                            != self@.generations[k as int].ratchet_public);
                    }
                }
                return false;
            }
            k += 1;
        }
        let mut i: usize = 0;
        while i < n
            invariant
                i <= n,
                n == self.entries@.len(),
                g == self.generations@.len(),
                g >= 1,
                current == self@.generations.last().ratchet_public,
                distinct_generations(self@.generations),
                forall|x: int|
                    0 <= x < i && (#[trigger] self@.entries[x]).ratchet_public == current
                        ==> self@.entries[x].counter < receiving_counter,
                forall|x: int|
                    0 <= x < i ==> self@.retains((#[trigger] self@.entries[x]).ratchet_public),
                forall|x: int|
                    0 <= x < i ==> !has_expired(
                        self@.expired,
                        (#[trigger] self@.entries[x]).ratchet_public,
                        self@.entries[x].counter,
                    ),
                forall|x: int, y: int|
                    0 <= x < y < i ==> !is_for(
                        #[trigger] self@.entries[x],
                        (#[trigger] self@.entries[y]).ratchet_public,
                        self@.entries[y].counter,
                    ),
            decreases n - i,
        {
            let entry = &self.entries[i];
            if entry.counter >= receiving_counter && bytes::bytes_eq(
                entry.ratchet_public.as_slice(),
                self.generations[g - 1].ratchet_public.as_slice(),
            ) {
                assert(self@.entries[i as int].ratchet_public == current);
                return false;
            }
            if !self.retains(entry.ratchet_public.as_slice()) {
                assert(!self@.retains(self@.entries[i as int].ratchet_public));
                return false;
            }
            if self.has_expired(entry.ratchet_public.as_slice(), entry.counter) {
                assert(has_expired(
                    self@.expired,
                    self@.entries[i as int].ratchet_public,
                    self@.entries[i as int].counter,
                ));
                return false;
            }
            if !self.is_first_of_its_kind(i) {
                let ghost x = choose|x: int|
                    0 <= x < i && is_for(
                        #[trigger] self@.entries[x],
                        self@.entries[i as int].ratchet_public,
                        self@.entries[i as int].counter,
                    );
                assert(!distinct(self@.entries)) by {
                    if distinct(self@.entries) {
                        assert(!is_for(
                            self@.entries[x],
                            self@.entries[i as int].ratchet_public,
                            self@.entries[i as int].counter,
                        ));
                    }
                }
                return false;
            }
            i += 1;
        }
        let m = self.expired.len();
        let mut j: usize = 0;
        while j < m
            invariant
                j <= m,
                m == self.expired@.len(),
                g == self.generations@.len(),
                g >= 1,
                current == self@.generations.last().ratchet_public,
                forall|x: int|
                    0 <= x < j && (#[trigger] self@.expired[x]).first <= self@.expired[x].last
                        ==> self@.knows(self@.expired[x].ratchet_public) && (
                    self@.expired[x].ratchet_public == current ==> self@.expired[x].last
                        < receiving_counter),
            decreases m - j,
        {
            let run = &self.expired[j];
            if run.first <= run.last {
                assert(covers(self@.expired[j as int], run@.ratchet_public, run.first));
                assert(covers(self@.expired[j as int], run@.ratchet_public, run.last));
                if self.find_generation(run.ratchet_public.as_slice()).is_none() {
                    assert(has_expired(self@.expired, run@.ratchet_public, run.first));
                    return false;
                }
                if run.last >= receiving_counter && bytes::bytes_eq(
                    run.ratchet_public.as_slice(),
                    self.generations[g - 1].ratchet_public.as_slice(),
                ) {
                    assert(has_expired(self@.expired, current, run.last));
                    return false;
                }
            }
            j += 1;
        }
        true
    }

    /// The number of cached keys.
    pub fn len(&self) -> (r: usize)
        ensures
            r == self@.entries.len(),
    {
        self.entries.len()
    }

    /// The number of generations that the session has seen.
    pub fn generation_count(&self) -> (r: usize)
        ensures
            r == self@.generations.len(),
    {
        self.generations.len()
    }

    /// The largest number of skipped keys that are kept.
    pub fn max_entries(&self) -> (r: usize)
        ensures
            r == self@.max_entries,
    {
        self.max_entries
    }

    /// The largest number of generations whose skipped keys are kept.
    pub fn max_generations(&self) -> (r: usize)
        ensures
            r == self@.max_generations,
    {
        self.max_generations
    }

    /// The cached entry at `index`, oldest first.
    pub fn entry(&self, index: usize) -> (r: &SkippedKeyEntry)
        requires
            index < self@.entries.len(),
        ensures
            r@ == self@.entries[index as int],
    {
        &self.entries[index]
    }

    /// The generation at `index`, oldest first.
    pub fn generation(&self, index: usize) -> (r: &Generation)
        requires
            index < self@.generations.len(),
        ensures
            r@ == self@.generations[index as int],
    {
        &self.generations[index]
    }

    /// The index of the entry for the ratchet key and the counter, if one is
    /// cached.
    pub fn position(&self, ratchet_public: &[u8], counter: u64) -> (r: Option<usize>)
        ensures
            match r {
                Some(i) => self@.position(ratchet_public@, counter) == Some(i as int) && i
                    < self@.entries.len(),
                None => self@.position(ratchet_public@, counter).is_none(),
            },
    {
        let mut found: Option<usize> = None;
        let mut i: usize = 0;
        let ghost entries = self@.entries;
        assert(entries.subrange(0, 0) =~= Seq::<EntryView>::empty());
        while i < self.entries.len()
            invariant
                i <= self.entries@.len(),
                entries == self@.entries,
                entries.len() == self.entries@.len(),
                match found {
                    Some(k) => spec_position(entries.subrange(0, i as int), ratchet_public@, counter)
                        == Some(k as int) && k < i,
                    None => spec_position(
                        entries.subrange(0, i as int),
                        ratchet_public@,
                        counter,
                    ).is_none(),
                },
            decreases self.entries@.len() - i,
        {
            let e = &self.entries[i];
            let hit = e.counter == counter && bytes::bytes_eq(
                e.ratchet_public.as_slice(),
                ratchet_public,
            );
            proof {
                let next = entries.subrange(0, i + 1);
                assert(next.drop_last() =~= entries.subrange(0, i as int));
                assert(next.last() == self.entries@[i as int]@);
            }
            if found.is_none() && hit {
                found = Some(i);
            }
            i += 1;
        }
        assert(entries.subrange(0, entries.len() as int) =~= entries);
        found
    }

    /// Takes the key for the ratchet key and the counter out of the cache,
    /// if it is cached. A key leaves the cache when it is used, so it is
    /// used once.
    pub fn take(&mut self, ratchet_public: &[u8], counter: u64) -> (r: Option<Vec<u8>>)
        requires
            old(self)@.wf(),
        ensures
            final(self)@.wf(),
            match old(self)@.position(ratchet_public@, counter) {
                Some(i) => r.is_some() && r.unwrap()@ == old(self)@.entries[i].message_key
                    && final(self)@ == old(self)@.consume(i),
                None => r.is_none() && final(self)@ == old(self)@,
            },
    {
        match self.position(ratchet_public, counter) {
            Some(i) => {
                let e = self.entries.remove(i);
                assert(self@.entries =~= old(self)@.entries.remove(i as int));
                Some(e.into_message_key())
            },
            None => None,
        }
    }

    /// The index of the first generation with the ratchet key.
    pub fn find_generation(&self, ratchet_public: &[u8]) -> (r: Option<usize>)
        ensures
            match r {
                Some(i) => spec_generation(self@.generations, ratchet_public@) == Some(i as int)
                    && i < self@.generations.len(),
                None => spec_generation(self@.generations, ratchet_public@).is_none(),
            },
    {
        let mut found: Option<usize> = None;
        let mut i: usize = 0;
        let ghost generations = self@.generations;
        assert(generations.subrange(0, 0) =~= Seq::<GenerationView>::empty());
        while i < self.generations.len()
            invariant
                i <= self.generations@.len(),
                generations == self@.generations,
                generations.len() == self.generations@.len(),
                match found {
                    Some(k) => spec_generation(generations.subrange(0, i as int), ratchet_public@)
                        == Some(k as int) && k < i,
                    None => spec_generation(
                        generations.subrange(0, i as int),
                        ratchet_public@,
                    ).is_none(),
                },
            decreases self.generations@.len() - i,
        {
            let hit = bytes::bytes_eq(self.generations[i].ratchet_public.as_slice(), ratchet_public);
            proof {
                let next = generations.subrange(0, i + 1);
                assert(next.drop_last() =~= generations.subrange(0, i as int));
                assert(next.last() == self.generations@[i as int]@);
            }
            if found.is_none() && hit {
                found = Some(i);
            }
            i += 1;
        }
        assert(generations.subrange(0, generations.len() as int) =~= generations);
        found
    }

    /// Whether the ratchet key is that of the current generation.
    pub fn is_current(&self, ratchet_public: &[u8]) -> (r: bool)
        ensures
            r == self@.is_current(ratchet_public@),
    {
        let n = self.generations.len();
        if n == 0 {
            false
        } else {
            bytes::bytes_eq(self.generations[n - 1].ratchet_public.as_slice(), ratchet_public)
        }
    }

    /// The error for a message of a known generation whose key is not
    /// cached and cannot be derived.
    pub fn miss(&self, ratchet_public: &[u8], counter: u64) -> (r: Error)
        ensures
            r == self@.miss(ratchet_public@, counter),
    {
        if self.has_expired(ratchet_public, counter) {
            Error::MessageKeyExpired
        } else {
            Error::DuplicateMessage
        }
    }

    /// Caches a skipped key as the newest entry. Where that exceeds the
    /// bound on the number of entries, the oldest entry is evicted for good.
    pub fn store(&mut self, ratchet_public: &[u8], counter: u64, message_key: Vec<u8>)
        requires
            old(self)@.wf(),
        ensures
            final(self)@ == old(self)@.store(
                EntryView {
                    ratchet_public: ratchet_public@,
                    counter,
                    message_key: message_key@,
                },
            ),
            final(self)@.wf(),
    {
        let entry = SkippedKeyEntry {
            ratchet_public: bytes::copy(ratchet_public),
            counter,
            message_key,
        };
        self.entries.push(entry);
        assert(self@.entries =~= old(self)@.entries.push(entry@));
        if self.entries.len() > self.max_entries {
            let mut evicted = self.entries.remove(0);
            assert(self@.entries =~= old(self)@.entries.push(entry@).remove(0));
            self.expire(evicted.ratchet_public.as_slice(), evicted.counter);
            crate::aws_lc::zeroize(&mut evicted.message_key);
        }
    }

    /// Evicts every entry of the ratchet key, oldest first, and remembers
    /// each as evicted.
    fn retire(&mut self, ratchet_public: &[u8])
        ensures
            final(self)@ == (CacheView {
                entries: spec_purge(old(self)@.entries, ratchet_public@),
                expired: spec_retire(old(self)@.expired, old(self)@.entries, ratchet_public@),
                ..old(self)@
            }),
            final(self)@.entries.len() <= old(self)@.entries.len(),
    {
        let mut kept: Vec<SkippedKeyEntry> = Vec::new();
        let ghost before = self@.entries;
        let ghost evicted = self@.expired;
        let ghost generations = self@.generations;
        let n = self.entries.len();
        let mut i: usize = 0;
        assert(before.subrange(0, 0) =~= Seq::<EntryView>::empty());
        assert(entry_views(kept@) =~= Seq::<EntryView>::empty());
        while i < n
            invariant
                i <= n,
                n == before.len(),
                self.entries@.len() == n - i,
                self@.generations == generations,
                self.max_entries == old(self).max_entries,
                self.max_generations == old(self).max_generations,
                entry_views(self.entries@) =~= before.subrange(i as int, n as int),
                entry_views(kept@) == spec_purge(before.subrange(0, i as int), ratchet_public@),
                self@.expired == spec_retire(evicted, before.subrange(0, i as int), ratchet_public@),
                kept@.len() <= i,
            decreases n - i,
        {
            let ghost pre = self.entries@;
            let mut e = self.entries.remove(0);
            proof {
                let next = before.subrange(0, i + 1);
                assert(next.drop_last() =~= before.subrange(0, i as int));
                assert(entry_views(pre)[0] == before.subrange(i as int, n as int)[0]);
                assert(next.last() == e@);
                assert forall|j: int| 0 <= j < self.entries@.len() implies entry_views(
                    self.entries@,
                )[j] == before.subrange(i + 1, n as int)[j] by {
                    assert(self.entries@[j] == pre[j + 1]);
                    assert(entry_views(pre)[j + 1] == before.subrange(i as int, n as int)[j + 1]);
                }
                assert(entry_views(self.entries@) =~= before.subrange(i + 1, n as int));
            }
            if bytes::bytes_eq(e.ratchet_public.as_slice(), ratchet_public) {
                let ghost rest = self@.entries;
                self.expire(ratchet_public, e.counter);
                assert(self@.entries == rest);
                crate::aws_lc::zeroize(&mut e.message_key);
            } else {
                let ghost prev = entry_views(kept@);
                kept.push(e);
                assert(entry_views(kept@) =~= prev.push(e@));
            }
            i += 1;
        }
        assert(before.subrange(0, n as int) =~= before);
        self.entries = kept;
    }

    /// Ends the chain of the current generation with the messages below
    /// `passed`: the keys of all later messages of the generation are lost
    /// for good.
    pub fn close(&mut self, passed: u64)
        requires
            old(self)@.generations.len() >= 1,
        ensures
            final(self)@ == old(self)@.close(passed),
    {
        let n = self.generations.len();
        let current = bytes::copy(self.generations[n - 1].ratchet_public.as_slice());
        let ghost before = self@.expired;
        self.expired.push(Expired { ratchet_public: current, first: passed, last: u64::MAX });
        assert(self@.expired =~= before.push(
            ExpiredView {
                ratchet_public: old(self)@.generations.last().ratchet_public,
                first: passed,
                last: u64::MAX,
            },
        ));
    }

    /// Whether the ratchet key is that of a generation whose skipped keys
    /// are kept.
    pub fn retains(&self, ratchet_public: &[u8]) -> (r: bool)
        ensures
            r == self@.retains(ratchet_public@),
    {
        let n = self.generations.len();
        let mut g: usize = if n > self.max_generations {
            n - self.max_generations
        } else {
            0
        };
        let ghost first = g;
        while g < n
            invariant
                first <= g <= n,
                n == self.generations@.len(),
                first == if n > self.max_generations {
                    n - self.max_generations
                } else {
                    0
                },
                forall|x: int|
                    first <= x < g ==> (#[trigger] self@.generations[x]).ratchet_public
                        != ratchet_public@,
            decreases n - g,
        {
            if bytes::bytes_eq(self.generations[g].ratchet_public.as_slice(), ratchet_public) {
                assert(self@.generations[g as int].ratchet_public == ratchet_public@);
                return true;
            }
            g += 1;
        }
        false
    }

    /// The number of generations whose skipped keys are kept: no more than
    /// the bound.
    pub fn retained_count(&self) -> (r: usize)
        ensures
            r <= self@.max_generations,
            r == if self@.generations.len() <= self@.max_generations {
                self@.generations.len()
            } else {
                self@.max_generations as nat
            },
    {
        if self.generations.len() <= self.max_generations {
            self.generations.len()
        } else {
            self.max_generations
        }
    }

    /// Makes the ratchet key the current generation. Where that exceeds the
    /// bound on the generations whose keys are kept, the oldest of them
    /// leaves: its ratchet key stays known, and every cached key of it is
    /// evicted for good.
    pub fn open_generation(&mut self, ratchet_public: &[u8])
        requires
            old(self)@.wf(),
        ensures
            final(self)@ == old(self)@.open_generation(ratchet_public@),
            final(self)@.wf(),
    {
        let n = self.generations.len();
        if n >= self.max_generations {
            let retired = bytes::copy(self.generations[n - self.max_generations].ratchet_public.as_slice());
            self.retire(retired.as_slice());
        }
        let generation = Generation { ratchet_public: bytes::copy(ratchet_public) };
        let ghost before = self@.generations;
        self.generations.push(generation);
        assert(self@.generations =~= before.push(generation@));
    }
}

} // verus!
