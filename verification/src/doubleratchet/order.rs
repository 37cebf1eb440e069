use vstd::prelude::*;
use crate::doubleratchet::cache::covers;
use crate::doubleratchet::cache::has_expired;
use crate::doubleratchet::cache::spec_expire;
use crate::doubleratchet::cache::spec_retire;
use crate::doubleratchet::cache::ExpiredView;
use crate::doubleratchet::cache::spec_position;
use crate::doubleratchet::cache::CacheView;
use crate::doubleratchet::cache::EntryView;
use crate::doubleratchet::cache::GenerationView;
use crate::doubleratchet::kdf::spec_advance;
use crate::doubleratchet::kdf::spec_message_key;
use crate::doubleratchet::kdf::spec_next_chain_key;
use crate::doubleratchet::cache::distinct;
use crate::doubleratchet::cache::distinct_generations;
use crate::doubleratchet::cache::is_for;
use crate::doubleratchet::cache::lacks;
use crate::doubleratchet::cache::spec_generation;
use crate::doubleratchet::cache::spec_purge;
use crate::doubleratchet::session::spec_skip;
use crate::doubleratchet::session::HeaderView;
use crate::doubleratchet::session::KeyPairView;
use crate::doubleratchet::session::SessionView;
use crate::error::Error;
use crate::hkdf;

verus! {

/// The position of a key in the cache is that of the first entry for it.
pub proof fn lemma_position_is_first(entries: Seq<EntryView>, ratchet_public: Seq<u8>, counter: u64)
    ensures
        match spec_position(entries, ratchet_public, counter) {
            Some(i) => 0 <= i < entries.len() && is_for(entries[i], ratchet_public, counter)
                && lacks(entries.subrange(0, i), ratchet_public, counter),
            None => lacks(entries, ratchet_public, counter),
        },
    decreases entries.len(),
{
    if entries.len() > 0 {
        let front = entries.drop_last();
        lemma_position_is_first(front, ratchet_public, counter);
        match spec_position(front, ratchet_public, counter) {
            Some(i) => {
                assert(front[i] == entries[i]);
                assert(front.subrange(0, i) =~= entries.subrange(0, i));
            },
            None => {
                assert forall|k: int| 0 <= k < entries.len() - 1 implies !is_for(
                    #[trigger] entries[k],
                    ratchet_public,
                    counter,
                ) by {
                    assert(front[k] == entries[k]);
                }
                if is_for(entries.last(), ratchet_public, counter) {
                    assert(entries.subrange(0, entries.len() - 1) =~= front);
                }
            },
        }
    }
}

/// The first entry for a key is at the position of the key.
pub proof fn lemma_first_is_position(
    entries: Seq<EntryView>,
    ratchet_public: Seq<u8>,
    counter: u64,
    index: int,
)
    requires
        0 <= index < entries.len(),
        is_for(entries[index], ratchet_public, counter),
        lacks(entries.subrange(0, index), ratchet_public, counter),
    ensures
        spec_position(entries, ratchet_public, counter) == Some(index),
{
    lemma_position_is_first(entries, ratchet_public, counter);
    match spec_position(entries, ratchet_public, counter) {
        Some(i) => {
            if i < index {
                assert(entries.subrange(0, index)[i] == entries[i]);
            }
            if index < i {
                assert(entries.subrange(0, i)[index] == entries[index]);
            }
        },
        None => {},
    }
}

/// The keys that a chain gives for `count` messages from the message
/// `from` on, as entries of the cache.
pub open spec fn spec_skipped(
    hkdf: hkdf::Algorithm,
    chain: Seq<u8>,
    from: u64,
    count: nat,
    ratchet_public: Seq<u8>,
) -> Seq<EntryView> {
    Seq::new(
        count,
        |k: int|
            EntryView {
                ratchet_public,
                counter: (from + k) as u64,
                message_key: spec_message_key(hkdf, spec_advance(hkdf, chain, k as nat)),
            },
    )
}

/// The newest `max` of the entries.
pub open spec fn newest(all: Seq<EntryView>, max: nat) -> Seq<EntryView> {
    if all.len() <= max {
        all
    } else {
        all.subrange(all.len() - max, all.len() as int)
    }
}

/// The entries that are not among the newest `max`.
pub open spec fn oldest(all: Seq<EntryView>, max: nat) -> Seq<EntryView> {
    if all.len() <= max {
        Seq::empty()
    } else {
        all.subrange(0, all.len() - max)
    }
}

/// What was evicted, after each of the entries was evicted too, in order.
pub open spec fn spec_expire_each(expired: Seq<ExpiredView>, evicted: Seq<EntryView>) -> Seq<
    ExpiredView,
>
    decreases evicted.len(),
{
    if evicted.len() == 0 {
        expired
    } else {
        spec_expire_each(
            spec_expire(expired, evicted[0].ratchet_public, evicted[0].counter),
            evicted.subrange(1, evicted.len() as int),
        )
    }
}

/// After a key was evicted, the evicted keys are those that were evicted
/// before and that key, and no other.
pub proof fn lemma_expire(
    expired: Seq<ExpiredView>,
    evicted_public: Seq<u8>,
    evicted_counter: u64,
    ratchet_public: Seq<u8>,
    counter: u64,
)
    ensures
        has_expired(spec_expire(expired, evicted_public, evicted_counter), ratchet_public, counter)
            <==> has_expired(expired, ratchet_public, counter) || (ratchet_public
            == evicted_public && counter == evicted_counter),
{
    let after = spec_expire(expired, evicted_public, evicted_counter);
    let last = expired.len() - 1;
    let joins = expired.len() > 0 && expired.last().ratchet_public == evicted_public
        && expired.last().first <= expired.last().last && expired.last().last + 1
        == evicted_counter;
    if has_expired(after, ratchet_public, counter) {
        let k = choose|k: int|
            0 <= k < after.len() && covers(#[trigger] after[k], ratchet_public, counter);
        if k < after.len() - 1 {
            assert(after[k] == expired[k]);
            assert(covers(expired[k], ratchet_public, counter));
        } else if joins && !(ratchet_public == evicted_public && counter == evicted_counter) {
            assert(covers(expired[last], ratchet_public, counter));
        }
    }
    if has_expired(expired, ratchet_public, counter) {
        let k = choose|k: int|
            0 <= k < expired.len() && covers(#[trigger] expired[k], ratchet_public, counter);
        if joins && k == last {
            assert(covers(after[last], ratchet_public, counter));
        } else {
            assert(after[k] == expired[k]);
            assert(covers(after[k], ratchet_public, counter));
        }
    }
    if ratchet_public == evicted_public && counter == evicted_counter {
        assert(covers(after[after.len() - 1], ratchet_public, counter));
    }
}

/// After entries were evicted, the evicted keys are those that were
/// evicted before and the keys of these entries, and no other.
pub proof fn lemma_expire_each(
    expired: Seq<ExpiredView>,
    evicted: Seq<EntryView>,
    ratchet_public: Seq<u8>,
    counter: u64,
)
    ensures
        has_expired(spec_expire_each(expired, evicted), ratchet_public, counter) <==> has_expired(
            expired,
            ratchet_public,
            counter,
        ) || !lacks(evicted, ratchet_public, counter),
    decreases evicted.len(),
{
    if evicted.len() > 0 {
        let first = spec_expire(expired, evicted[0].ratchet_public, evicted[0].counter);
        let rest = evicted.subrange(1, evicted.len() as int);
        lemma_expire(expired, evicted[0].ratchet_public, evicted[0].counter, ratchet_public, counter);
        lemma_expire_each(first, rest, ratchet_public, counter);
        if !lacks(rest, ratchet_public, counter) {
            let i = choose|i: int|
                0 <= i < rest.len() && is_for(#[trigger] rest[i], ratchet_public, counter);
            assert(is_for(evicted[i + 1], ratchet_public, counter));
        }
        if !lacks(evicted, ratchet_public, counter) {
            let i = choose|i: int|
                0 <= i < evicted.len() && is_for(#[trigger] evicted[i], ratchet_public, counter);
            if i > 0 {
                assert(is_for(rest[i - 1], ratchet_public, counter));
            }
        }
        if is_for(evicted[0], ratchet_public, counter) {
            assert(!lacks(evicted, ratchet_public, counter));
        }
    }
}

/// After the entries of a ratchet key were evicted, the evicted keys are
/// those that were evicted before and the keys of these entries, and no
/// other.
pub proof fn lemma_retire(
    expired: Seq<ExpiredView>,
    entries: Seq<EntryView>,
    retired: Seq<u8>,
    ratchet_public: Seq<u8>,
    counter: u64,
)
    ensures
        has_expired(spec_retire(expired, entries, retired), ratchet_public, counter)
            <==> has_expired(expired, ratchet_public, counter) || (ratchet_public == retired
            && !lacks(entries, ratchet_public, counter)),
    decreases entries.len(),
{
    if entries.len() > 0 {
        let front = entries.drop_last();
        let rest = spec_retire(expired, front, retired);
        lemma_retire(expired, front, retired, ratchet_public, counter);
        if entries.last().ratchet_public == retired {
            lemma_expire(rest, retired, entries.last().counter, ratchet_public, counter);
        }
        if !lacks(front, ratchet_public, counter) {
            let i = choose|i: int|
                0 <= i < front.len() && is_for(#[trigger] front[i], ratchet_public, counter);
            assert(is_for(entries[i], ratchet_public, counter));
        }
        if !lacks(entries, ratchet_public, counter) {
            let i = choose|i: int|
                0 <= i < entries.len() && is_for(#[trigger] entries[i], ratchet_public, counter);
            if i < entries.len() - 1 {
                assert(is_for(front[i], ratchet_public, counter));
            }
        }
        if is_for(entries.last(), ratchet_public, counter) {
            assert(is_for(entries[entries.len() - 1], ratchet_public, counter));
        }
    }
}

/// The cache keeps the newest keys: after a chain skipped messages, the
/// cache holds the newest of what it held and of the skipped keys, as many
/// as its bound allows, and every older entry was evicted in the order of
/// its age.
pub proof fn lemma_skip_keeps_newest(
    hkdf: hkdf::Algorithm,
    chain: Seq<u8>,
    from: u64,
    until: u64,
    ratchet_public: Seq<u8>,
    cache: CacheView,
)
    requires
        from <= until,
        cache.entries.len() <= cache.max_entries,
    ensures
        ({
            let all = cache.entries + spec_skipped(
                hkdf,
                chain,
                from,
                (until - from) as nat,
                ratchet_public,
            );
            let after = spec_skip(hkdf, chain, from, until, ratchet_public, cache).1;
            &&& after.entries == newest(all, cache.max_entries as nat)
            &&& after.generations == cache.generations
            &&& after.expired == spec_expire_each(
                cache.expired,
                oldest(all, cache.max_entries as nat),
            )
            &&& after.max_entries == cache.max_entries
            &&& after.max_generations == cache.max_generations
        }),
    decreases until - from,
{
    let max = cache.max_entries as nat;
    let count = (until - from) as nat;
    let skipped = spec_skipped(hkdf, chain, from, count, ratchet_public);
    let all = cache.entries + skipped;
    if from < until {
        let first = EntryView {
            ratchet_public,
            counter: from,
            message_key: spec_message_key(hkdf, chain),
        };
        let next = spec_next_chain_key(hkdf, chain);
        let stored = cache.store(first);
        let rest = spec_skipped(hkdf, next, (from + 1) as u64, (count - 1) as nat, ratchet_public);
        lemma_skip_keeps_newest(hkdf, next, (from + 1) as u64, until, ratchet_public, stored);
        assert(skipped =~= seq![first] + rest) by {
            assert forall|k: int| 0 <= k < skipped.len() implies skipped[k] == (seq![first]
                + rest)[k] by {
                if k > 0 {
                    assert(spec_advance(hkdf, chain, k as nat) == spec_advance(
                        hkdf,
                        next,
                        (k - 1) as nat,
                    ));
                }
            }
        }
        let pushed = cache.entries.push(first);
        let all_after = stored.entries + rest;
        if pushed.len() > max {
            assert(all_after =~= all.subrange(1, all.len() as int));
            assert(newest(all_after, max) =~= newest(all, max));
            assert(oldest(all, max)[0] == all[0]);
            assert(all[0] == pushed[0]);
            assert(oldest(all, max).subrange(1, oldest(all, max).len() as int) =~= oldest(
                all_after,
                max,
            ));
            assert(spec_expire_each(cache.expired, oldest(all, max)) == spec_expire_each(
                spec_expire(
                    cache.expired,
                    oldest(all, max)[0].ratchet_public,
                    oldest(all, max)[0].counter,
                ),
                oldest(all, max).subrange(1, oldest(all, max).len() as int),
            ));
        } else {
            assert(all_after =~= all);
        }
    } else {
        assert(all =~= cache.entries);
        assert(oldest(all, max) =~= Seq::<EntryView>::empty());
    }
}

/// The generation of a ratchet key is the first generation with that key.
pub proof fn lemma_generation_is_first(generations: Seq<GenerationView>, ratchet_public: Seq<u8>)
    ensures
        match spec_generation(generations, ratchet_public) {
            Some(g) => 0 <= g < generations.len() && generations[g].ratchet_public
                == ratchet_public,
            None => forall|g: int|
                0 <= g < generations.len() ==> (#[trigger] generations[g]).ratchet_public
                    != ratchet_public,
        },
    decreases generations.len(),
{
    if generations.len() > 0 {
        let front = generations.drop_last();
        lemma_generation_is_first(front, ratchet_public);
        match spec_generation(front, ratchet_public) {
            Some(g) => {
                assert(front[g] == generations[g]);
            },
            None => {
                assert forall|g: int| 0 <= g < generations.len() - 1 implies (
                #[trigger] generations[g]).ratchet_public != ratchet_public by {
                    assert(front[g] == generations[g]);
                }
            },
        }
    }
}

/// The message key of the message `counter` of a chain whose chain key at
/// the message `from` is `chain`.
pub open spec fn spec_key_of(hkdf: hkdf::Algorithm, chain: Seq<u8>, from: u64, counter: u64) -> Seq<
    u8,
> {
    spec_message_key(hkdf, spec_advance(hkdf, chain, (counter - from) as nat))
}

/// Once the reordering depth exceeds the bound of the cache, the earliest
/// skipped keys are lost for good, and all within the bound are kept.
///
/// A message arrives that is further ahead of the receiving chain than the
/// cache has room for. It is decrypted. Of the messages that were skipped
/// for it, each of the newest, as many as the bound allows, is decrypted
/// when it arrives; each of the older ones, the earliest among them, fails
/// with [`Error::MessageKeyExpired`] and leaves the session as it is.
pub proof fn lemma_key_beyond_the_bound_expires(
    session: SessionView,
    header: HeaderView,
    fresh: KeyPairView,
    again: KeyPairView,
)
    requires
        session.bounded(),
        session.in_order(),
        session.cache.is_current(header.ratchet_public),
        session.receiving_chain.is_some(),
        session.receiving_counter <= header.counter < u64::MAX,
        header.counter - session.receiving_counter > session.cache.max_entries,
    ensures
        ({
            let after = session.decrypt(header, fresh).0;
            let hkdf = session.suite.hkdf;
            let chain = session.receiving_chain.unwrap();
            let from = session.receiving_counter;
            let kept = header.counter - session.cache.max_entries;
            &&& session.decrypt(header, fresh).1 == Ok::<Seq<u8>, Error>(
                spec_key_of(hkdf, chain, from, header.counter),
            )
            &&& forall|late: HeaderView|
                late.ratchet_public == header.ratchet_public && from <= late.counter < kept
                    ==> #[trigger] after.decrypt(late, again) == (
                    after,
                    Err::<Seq<u8>, Error>(Error::MessageKeyExpired),
                )
            &&& forall|late: HeaderView|
                late.ratchet_public == header.ratchet_public && kept <= late.counter
                    < header.counter ==> (#[trigger] after.decrypt(late, again)).1 == Ok::<
                    Seq<u8>,
                    Error,
                >(spec_key_of(hkdf, chain, from, late.counter))
        }),
{
    let after = session.decrypt(header, fresh).0;
    let hkdf = session.suite.hkdf;
    let chain = session.receiving_chain.unwrap();
    let from = session.receiving_counter;
    let p = header.ratchet_public;
    let max = session.cache.max_entries as nat;
    let gap = (header.counter - from) as nat;
    let kept = header.counter - max;
    let skipped = spec_skipped(hkdf, chain, from, gap, p);
    let all = session.cache.entries + skipped;
    let old = session.cache.entries.len();
    lemma_position_is_first(session.cache.entries, p, header.counter);
    match session.cache.position(p, header.counter) {
        Some(i) => {
            assert(session.cache.entries[i].counter < from);
        },
        None => {},
    }
    lemma_skip_keeps_newest(hkdf, chain, from, header.counter, p, session.cache);
    crate::doubleratchet::laws::lemma_skip_advances_chain(
        hkdf,
        chain,
        from,
        header.counter,
        p,
        session.cache,
    );
    let entries = after.cache.entries;
    assert(entries.len() == max);
    assert forall|i: int| 0 <= i < max implies #[trigger] entries[i] == skipped[gap - max + i] by {
        assert(entries[i] == all[all.len() - max + i]);
    }
    assert forall|late: HeaderView|
        late.ratchet_public == p && from <= late.counter < kept implies #[trigger] after.decrypt(
        late,
        again,
    ) == (after, Err::<Seq<u8>, Error>(Error::MessageKeyExpired)) by {
        lemma_position_is_first(entries, p, late.counter);
        let k = old + (late.counter - from);
        assert(oldest(all, max)[k] == all[k]);
        assert(all[k] == skipped[late.counter - from]);
        assert(is_for(oldest(all, max)[k], p, late.counter));
        lemma_expire_each(session.cache.expired, oldest(all, max), p, late.counter);
        assert(has_expired(after.cache.expired, p, late.counter));
    }
    assert forall|late: HeaderView|
        late.ratchet_public == p && kept <= late.counter < header.counter implies (
    #[trigger] after.decrypt(late, again)).1 == Ok::<Seq<u8>, Error>(
        spec_key_of(hkdf, chain, from, late.counter),
    ) by {
        let i = late.counter - kept;
        assert(entries[i] == skipped[gap - max + i]);
        assert forall|k: int| 0 <= k < i implies !is_for(
            #[trigger] entries.subrange(0, i)[k],
            p,
            late.counter,
        ) by {
            assert(entries.subrange(0, i)[k] == entries[k]);
            assert(entries[k] == skipped[gap - max + k]);
        }
        lemma_first_is_position(entries, p, late.counter, i);
    }
}

/// A ratchet key is that of a known generation exactly if some
/// generation has it.
pub proof fn lemma_knows(generations: Seq<GenerationView>, ratchet_public: Seq<u8>)
    ensures
        spec_generation(generations, ratchet_public).is_some() <==> exists|g: int|
            0 <= g < generations.len() && (#[trigger] generations[g]).ratchet_public
                == ratchet_public,
{
    lemma_generation_is_first(generations, ratchet_public);
    match spec_generation(generations, ratchet_public) {
        Some(g) => {
            assert(generations[g].ratchet_public == ratchet_public);
        },
        None => {},
    }
}

/// Skipping messages of the current chain keeps the cache in order.
pub proof fn lemma_skip_keeps_order(
    hkdf: hkdf::Algorithm,
    chain: Seq<u8>,
    from: u64,
    until: u64,
    ratchet_public: Seq<u8>,
    cache: CacheView,
)
    requires
        from <= until,
        cache.wf(),
        distinct_generations(cache.generations),
        distinct(cache.entries),
        cache.retains(ratchet_public),
        forall|i: int|
            0 <= i < cache.entries.len() && (#[trigger] cache.entries[i]).ratchet_public
                == ratchet_public ==> cache.entries[i].counter < from,
        forall|i: int|
            0 <= i < cache.entries.len() ==> cache.retains(
                (#[trigger] cache.entries[i]).ratchet_public,
            ),
    ensures
        ({
            let after = spec_skip(hkdf, chain, from, until, ratchet_public, cache).1;
            &&& after.wf()
            &&& after.generations == cache.generations
            &&& after.max_generations == cache.max_generations
            &&& distinct_generations(after.generations)
            &&& distinct(after.entries)
            &&& forall|i: int|
                0 <= i < after.entries.len() && (#[trigger] after.entries[i]).ratchet_public
                    == ratchet_public ==> after.entries[i].counter < until || after.entries[i].counter
                    < from
            &&& forall|i: int|
                0 <= i < after.entries.len() ==> after.retains(
                    (#[trigger] after.entries[i]).ratchet_public,
                )
        }),
{
    let after = spec_skip(hkdf, chain, from, until, ratchet_public, cache).1;
    let max = cache.max_entries as nat;
    let count = (until - from) as nat;
    let skipped = spec_skipped(hkdf, chain, from, count, ratchet_public);
    let all = cache.entries + skipped;
    let old = cache.entries.len() as int;
    lemma_skip_keeps_newest(hkdf, chain, from, until, ratchet_public, cache);
    let shift = if all.len() <= max {
        0int
    } else {
        all.len() - max
    };
    assert forall|i: int| 0 <= i < after.entries.len() implies #[trigger] after.entries[i] == all[i
        + shift] by {}
    assert(distinct(all)) by {
        assert forall|i: int, j: int| 0 <= i < j < all.len() implies !is_for(
            #[trigger] all[i],
            (#[trigger] all[j]).ratchet_public,
            all[j].counter,
        ) by {
            if j < old {
                assert(all[i] == cache.entries[i] && all[j] == cache.entries[j]);
            } else if i < old {
                assert(all[i] == cache.entries[i]);
                assert(all[j] == skipped[j - old]);
            } else {
                assert(all[i] == skipped[i - old]);
                assert(all[j] == skipped[j - old]);
            }
        }
    }
    assert(distinct(after.entries)) by {
        assert forall|i: int, j: int| 0 <= i < j < after.entries.len() implies !is_for(
            #[trigger] after.entries[i],
            (#[trigger] after.entries[j]).ratchet_public,
            after.entries[j].counter,
        ) by {
            assert(after.entries[i] == all[i + shift]);
            assert(after.entries[j] == all[j + shift]);
        }
    }
    assert forall|i: int|
        0 <= i < after.entries.len() && (#[trigger] after.entries[i]).ratchet_public
            == ratchet_public implies after.entries[i].counter < until || after.entries[i].counter
        < from by {
        assert(after.entries[i] == all[i + shift]);
        if i + shift < old {
            assert(all[i + shift] == cache.entries[i + shift]);
        } else {
            assert(all[i + shift] == skipped[i + shift - old]);
        }
    }
    assert forall|i: int| 0 <= i < after.entries.len() implies after.retains(
        (#[trigger] after.entries[i]).ratchet_public,
    ) by {
        assert(after.entries[i] == all[i + shift]);
        let p = after.entries[i].ratchet_public;
        if i + shift < old {
            assert(all[i + shift] == cache.entries[i + shift]);
        } else {
            assert(all[i + shift] == skipped[i + shift - old]);
        }
        assert(cache.retains(p));
    }
}

/// What stays when the entries of a ratchet key are dropped: entries that
/// were there, none of the ratchet key, and no two for the same key and
/// counter if there were none before.
pub proof fn lemma_purge(entries: Seq<EntryView>, ratchet_public: Seq<u8>)
    ensures
        spec_purge(entries, ratchet_public).len() <= entries.len(),
        forall|k: int|
            0 <= k < spec_purge(entries, ratchet_public).len() ==> (#[trigger] spec_purge(
                entries,
                ratchet_public,
            )[k]).ratchet_public != ratchet_public && exists|i: int|
                0 <= i < entries.len() && #[trigger] entries[i] == spec_purge(
                    entries,
                    ratchet_public,
                )[k],
        distinct(entries) ==> distinct(spec_purge(entries, ratchet_public)),
        forall|i: int|
            0 <= i < entries.len() && (#[trigger] entries[i]).ratchet_public != ratchet_public
                ==> spec_purge(entries, ratchet_public).contains(entries[i]),
    decreases entries.len(),
{
    if entries.len() > 0 {
        let front = entries.drop_last();
        let rest = spec_purge(front, ratchet_public);
        let purged = spec_purge(entries, ratchet_public);
        lemma_purge(front, ratchet_public);
        assert forall|i: int|
            0 <= i < entries.len() && (#[trigger] entries[i]).ratchet_public
                != ratchet_public implies purged.contains(entries[i]) by {
            if i < entries.len() - 1 {
                assert(front[i] == entries[i]);
                let k = choose|k: int| 0 <= k < rest.len() && rest[k] == front[i];
                assert(purged[k] == entries[i]);
            } else {
                assert(purged[purged.len() - 1] == entries[i]);
            }
        }
        assert forall|k: int| 0 <= k < purged.len() implies (#[trigger] purged[k]).ratchet_public
            != ratchet_public && exists|i: int|
            0 <= i < entries.len() && #[trigger] entries[i] == purged[k] by {
            if k < rest.len() {
                assert(purged[k] == rest[k]);
                let i = choose|i: int| 0 <= i < front.len() && #[trigger] front[i] == rest[k];
                assert(entries[i] == purged[k]);
            } else {
                assert(entries[entries.len() - 1] == purged[k]);
            }
        }
        if distinct(entries) {
            assert(distinct(front)) by {
                assert forall|i: int, j: int| 0 <= i < j < front.len() implies !is_for(
                    #[trigger] front[i],
                    (#[trigger] front[j]).ratchet_public,
                    front[j].counter,
                ) by {
                    assert(front[i] == entries[i] && front[j] == entries[j]);
                }
            }
            assert forall|i: int, j: int| 0 <= i < j < purged.len() implies !is_for(
                #[trigger] purged[i],
                (#[trigger] purged[j]).ratchet_public,
                purged[j].counter,
            ) by {
                if j < rest.len() {
                    assert(purged[i] == rest[i] && purged[j] == rest[j]);
                } else {
                    assert(purged[i] == rest[i]);
                    let k = choose|k: int| 0 <= k < front.len() && #[trigger] front[k] == rest[i];
                    assert(entries[k] == purged[i]);
                    assert(purged[j] == entries[entries.len() - 1]);
                }
            }
        }
    }
}

/// A ratchet key that the cache knew is known after a generation was
/// opened: no generation is ever forgotten.
pub proof fn lemma_open_generation_keeps_known(
    cache: CacheView,
    opened: Seq<u8>,
    ratchet_public: Seq<u8>,
)
    requires
        cache.knows(ratchet_public),
    ensures
        cache.open_generation(opened).knows(ratchet_public),
        cache.open_generation(opened).knows(opened),
        cache.open_generation(opened).generations == cache.generations.push(
            GenerationView { ratchet_public: opened },
        ),
{
    let after = cache.open_generation(opened);
    lemma_knows(cache.generations, ratchet_public);
    let g = choose|g: int|
        0 <= g < cache.generations.len() && (#[trigger] cache.generations[g]).ratchet_public
            == ratchet_public;
    assert(after.generations[g] == cache.generations[g]);
    assert(after.generations[g].ratchet_public == ratchet_public);
    assert(after.generations[after.generations.len() - 1].ratchet_public == opened);
    lemma_knows(after.generations, ratchet_public);
    lemma_knows(after.generations, opened);
}

/// The current generation is among the newest.
pub proof fn lemma_current_is_retained(cache: CacheView)
    requires
        cache.wf(),
        cache.generations.len() >= 1,
    ensures
        cache.retains(cache.generations.last().ratchet_public),
{
    assert(cache.generations[cache.generations.len() - 1].ratchet_public
        == cache.generations.last().ratchet_public);
}

/// A ratchet key whose generation is among the newest is that of a known
/// generation.
pub proof fn lemma_retained_is_known(cache: CacheView, ratchet_public: Seq<u8>)
    requires
        cache.retains(ratchet_public),
    ensures
        cache.knows(ratchet_public),
{
    lemma_knows(cache.generations, ratchet_public);
}

/// Making a ratchet key that is new the current generation keeps the cache
/// in order, and no entry is of the new generation.
pub proof fn lemma_open_generation_keeps_order(cache: CacheView, ratchet_public: Seq<u8>)
    requires
        cache.wf(),
        distinct_generations(cache.generations),
        distinct(cache.entries),
        !cache.knows(ratchet_public),
        forall|i: int|
            0 <= i < cache.entries.len() ==> cache.retains(
                (#[trigger] cache.entries[i]).ratchet_public,
            ),
    ensures
        ({
            let after = cache.open_generation(ratchet_public);
            &&& after.wf()
            &&& after.generations == cache.generations.push(GenerationView { ratchet_public })
            &&& after.is_current(ratchet_public)
            &&& after.max_entries == cache.max_entries
            &&& after.max_generations == cache.max_generations
            &&& distinct_generations(after.generations)
            &&& distinct(after.entries)
            &&& forall|i: int|
                0 <= i < after.entries.len() ==> after.retains(
                    (#[trigger] after.entries[i]).ratchet_public,
                ) && after.entries[i].ratchet_public != ratchet_public
            &&& forall|i: int|
                0 <= i < after.entries.len() ==> cache.entries.contains(
                    #[trigger] after.entries[i],
                )
        }),
{
    let after = cache.open_generation(ratchet_public);
    let opened = GenerationView { ratchet_public };
    let pushed = cache.generations.push(opened);
    let len = cache.generations.len() as int;
    let max = cache.max_generations as int;
    lemma_knows(cache.generations, ratchet_public);
    assert forall|g: int| 0 <= g < len implies (#[trigger] cache.generations[g]).ratchet_public
        != ratchet_public by {}
    assert(distinct_generations(pushed)) by {
        assert forall|a: int, b: int| 0 <= a < b < pushed.len() implies (
        #[trigger] pushed[a]).ratchet_public != (#[trigger] pushed[b]).ratchet_public by {
            assert(pushed[a] == cache.generations[a]);
            if b < len {
                assert(pushed[b] == cache.generations[b]);
            }
        }
    }
    match cache.leaving() {
        Some(retired) => {
            lemma_purge(cache.entries, retired);
        },
        None => {},
    }
    assert forall|i: int| 0 <= i < after.entries.len() implies cache.entries.contains(
        #[trigger] after.entries[i],
    ) by {
        if cache.leaving().is_some() {
            let k = choose|k: int|
                0 <= k < cache.entries.len() && #[trigger] cache.entries[k] == after.entries[i];
            assert(cache.entries[k] == after.entries[i]);
        } else {
            assert(cache.entries[i] == after.entries[i]);
        }
    }
    assert forall|i: int| 0 <= i < after.entries.len() implies after.retains(
        (#[trigger] after.entries[i]).ratchet_public,
    ) && after.entries[i].ratchet_public != ratchet_public by {
        let e = after.entries[i];
        assert(cache.entries.contains(e));
        let k = choose|k: int| 0 <= k < cache.entries.len() && cache.entries[k] == e;
        assert(cache.retains(cache.entries[k].ratchet_public));
        let g = choose|g: int|
            0 <= g < len && len - g <= max && (#[trigger] cache.generations[g]).ratchet_public
                == e.ratchet_public;
        assert(after.generations[g] == cache.generations[g]);
        if cache.leaving().is_some() {
            assert(e.ratchet_public != cache.generations[len - max].ratchet_public);
        }
        assert(after.generations.len() - g <= max);
        assert(after.generations[g].ratchet_public == e.ratchet_public);
    }
}

/// Skipping messages of the current chain keeps what was evicted in
/// order: no cached key was evicted, what was evicted of the chain the
/// chain has passed, and what was evicted is of a known generation.
pub proof fn lemma_skip_keeps_evicted_apart(
    hkdf: hkdf::Algorithm,
    chain: Seq<u8>,
    from: u64,
    until: u64,
    ratchet_public: Seq<u8>,
    cache: CacheView,
)
    requires
        from <= until,
        cache.wf(),
        distinct(cache.entries),
        cache.retains(ratchet_public),
        forall|i: int|
            0 <= i < cache.entries.len() && (#[trigger] cache.entries[i]).ratchet_public
                == ratchet_public ==> cache.entries[i].counter < from,
        forall|i: int|
            0 <= i < cache.entries.len() ==> cache.retains(
                (#[trigger] cache.entries[i]).ratchet_public,
            ),
        forall|n: u64| #[trigger] has_expired(cache.expired, ratchet_public, n) ==> n < from,
        forall|i: int|
            0 <= i < cache.entries.len() ==> !has_expired(
                cache.expired,
                (#[trigger] cache.entries[i]).ratchet_public,
                cache.entries[i].counter,
            ),
        forall|p: Seq<u8>, n: u64| #[trigger] has_expired(cache.expired, p, n) ==> cache.knows(p),
    ensures
        ({
            let after = spec_skip(hkdf, chain, from, until, ratchet_public, cache).1;
            &&& forall|n: u64| #[trigger]
                has_expired(after.expired, ratchet_public, n) ==> n < until || n < from
            &&& forall|i: int|
                0 <= i < after.entries.len() ==> !has_expired(
                    after.expired,
                    (#[trigger] after.entries[i]).ratchet_public,
                    after.entries[i].counter,
                )
            &&& forall|p: Seq<u8>, n: u64| #[trigger]
                has_expired(after.expired, p, n) ==> after.knows(p)
        }),
{
    let after = spec_skip(hkdf, chain, from, until, ratchet_public, cache).1;
    let max = cache.max_entries as nat;
    let count = (until - from) as nat;
    let skipped = spec_skipped(hkdf, chain, from, count, ratchet_public);
    let all = cache.entries + skipped;
    let evicted = oldest(all, max);
    let old = cache.entries.len() as int;
    lemma_skip_keeps_newest(hkdf, chain, from, until, ratchet_public, cache);
    let shift = if all.len() <= max {
        0int
    } else {
        all.len() - max
    };
    assert forall|k: int| 0 <= k < all.len() implies cache.knows((#[trigger] all[k]).ratchet_public)
        && (all[k].ratchet_public == ratchet_public ==> all[k].counter < until || all[k].counter
        < from) && (k >= old ==> all[k].ratchet_public == ratchet_public && all[k].counter
        >= from) by {
        if k < old {
            assert(all[k] == cache.entries[k]);
        } else {
            assert(all[k] == skipped[k - old]);
        }
        lemma_retained_is_known(cache, all[k].ratchet_public);
    }
    assert forall|i: int, j: int| 0 <= i < j < all.len() implies !is_for(
        #[trigger] all[i],
        (#[trigger] all[j]).ratchet_public,
        all[j].counter,
    ) by {
        if j < old {
            assert(all[i] == cache.entries[i] && all[j] == cache.entries[j]);
        } else if i < old {
            assert(all[i] == cache.entries[i]);
            assert(all[j] == skipped[j - old]);
        } else {
            assert(all[i] == skipped[i - old]);
            assert(all[j] == skipped[j - old]);
        }
    }
    assert forall|n: u64| #[trigger]
        has_expired(after.expired, ratchet_public, n) implies n < until || n < from by {
        lemma_expire_each(cache.expired, evicted, ratchet_public, n);
        if !has_expired(cache.expired, ratchet_public, n) {
            let k = choose|k: int|
                0 <= k < evicted.len() && is_for(#[trigger] evicted[k], ratchet_public, n);
            assert(evicted[k] == all[k]);
        }
    }
    assert forall|i: int| 0 <= i < after.entries.len() implies !has_expired(
        after.expired,
        (#[trigger] after.entries[i]).ratchet_public,
        after.entries[i].counter,
    ) by {
        let e = after.entries[i];
        assert(e == all[i + shift]);
        lemma_expire_each(cache.expired, evicted, e.ratchet_public, e.counter);
        if has_expired(cache.expired, e.ratchet_public, e.counter) {
            if i + shift < old {
                assert(all[i + shift] == cache.entries[i + shift]);
            }
        }
        if !lacks(evicted, e.ratchet_public, e.counter) {
            let k = choose|k: int|
                0 <= k < evicted.len() && is_for(#[trigger] evicted[k], e.ratchet_public, e.counter);
            assert(evicted[k] == all[k]);
            assert(!is_for(all[k], all[i + shift].ratchet_public, all[i + shift].counter));
        }
    }
    assert forall|p: Seq<u8>, n: u64| #[trigger]
        has_expired(after.expired, p, n) implies after.knows(p) by {
        lemma_expire_each(cache.expired, evicted, p, n);
        if !has_expired(cache.expired, p, n) {
            let k = choose|k: int| 0 <= k < evicted.len() && is_for(#[trigger] evicted[k], p, n);
            assert(evicted[k] == all[k]);
        }
    }
}

/// Making a ratchet key that is new the current generation keeps what was
/// evicted in order: nothing was evicted of the new generation, no cached
/// key was evicted, and what was evicted is of a known generation.
pub proof fn lemma_open_generation_keeps_evicted_apart(cache: CacheView, ratchet_public: Seq<u8>)
    requires
        cache.wf(),
        distinct_generations(cache.generations),
        distinct(cache.entries),
        !cache.knows(ratchet_public),
        forall|i: int|
            0 <= i < cache.entries.len() ==> cache.retains(
                (#[trigger] cache.entries[i]).ratchet_public,
            ),
        forall|i: int|
            0 <= i < cache.entries.len() ==> !has_expired(
                cache.expired,
                (#[trigger] cache.entries[i]).ratchet_public,
                cache.entries[i].counter,
            ),
        forall|p: Seq<u8>, n: u64| #[trigger] has_expired(cache.expired, p, n) ==> cache.knows(p),
    ensures
        ({
            let after = cache.open_generation(ratchet_public);
            &&& forall|n: u64| !#[trigger] has_expired(after.expired, ratchet_public, n)
            &&& forall|i: int|
                0 <= i < after.entries.len() ==> !has_expired(
                    after.expired,
                    (#[trigger] after.entries[i]).ratchet_public,
                    after.entries[i].counter,
                )
            &&& forall|p: Seq<u8>, n: u64| #[trigger]
                has_expired(after.expired, p, n) ==> after.knows(p) && cache.knows(p)
        }),
{
    let after = cache.open_generation(ratchet_public);
    lemma_open_generation_keeps_order(cache, ratchet_public);
    assert forall|p: Seq<u8>, n: u64| #[trigger]
        has_expired(after.expired, p, n) implies after.knows(p) && cache.knows(p) by {
        match cache.leaving() {
            Some(retired) => {
                lemma_retire(cache.expired, cache.entries, retired, p, n);
                if !has_expired(cache.expired, p, n) {
                    let k = choose|k: int|
                        0 <= k < cache.entries.len() && is_for(#[trigger] cache.entries[k], p, n);
                    lemma_retained_is_known(cache, cache.entries[k].ratchet_public);
                }
            },
            None => {},
        }
        lemma_open_generation_keeps_known(cache, ratchet_public, p);
    }
    assert forall|i: int| 0 <= i < after.entries.len() implies !has_expired(
        after.expired,
        (#[trigger] after.entries[i]).ratchet_public,
        after.entries[i].counter,
    ) by {
        let e = after.entries[i];
        assert(cache.entries.contains(e));
        let k = choose|k: int| 0 <= k < cache.entries.len() && cache.entries[k] == e;
        assert(!has_expired(cache.expired, cache.entries[k].ratchet_public, cache.entries[k].counter));
        match cache.leaving() {
            Some(retired) => {
                lemma_retire(cache.expired, cache.entries, retired, e.ratchet_public, e.counter);
                lemma_purge(cache.entries, retired);
            },
            None => {},
        }
    }
}

/// Receiving a message of the current chain keeps the session in order.
pub proof fn lemma_receive_keeps_order(session: SessionView, counter: u64)
    requires
        session.bounded(),
        session.in_order(),
        session.receiving_chain.is_some(),
        session.receiving_counter <= counter < u64::MAX,
    ensures
        session.receive(counter).0.bounded(),
        session.receive(counter).0.in_order(),
        session.receive(counter).0.peer_ratchet_public() == session.peer_ratchet_public(),
{
    let current = session.peer_ratchet_public();
    lemma_current_is_retained(session.cache);
    lemma_skip_keeps_order(
        session.suite.hkdf,
        session.receiving_chain.unwrap(),
        session.receiving_counter,
        counter,
        current,
        session.cache,
    );
    lemma_skip_keeps_evicted_apart(
        session.suite.hkdf,
        session.receiving_chain.unwrap(),
        session.receiving_counter,
        counter,
        current,
        session.cache,
    );
}

/// Receiving keeps the session in order: whatever the header is and
/// whatever the outcome, the cache keeps its bounds and stays in order.
pub proof fn lemma_decrypt_keeps_order(session: SessionView, header: HeaderView, fresh: KeyPairView)
    requires
        session.bounded(),
        session.in_order(),
    ensures
        session.decrypt(header, fresh).0.bounded(),
        session.decrypt(header, fresh).0.in_order(),
{
    let after = session.decrypt(header, fresh).0;
    let entries = session.cache.entries;
    match session.cache.position(header.ratchet_public, header.counter) {
        Some(i) => {
            lemma_position_is_first(entries, header.ratchet_public, header.counter);
            let removed = entries.remove(i);
            assert forall|k: int| 0 <= k < removed.len() implies #[trigger] removed[k] == entries[if k
                < i {
                k
            } else {
                k + 1
            }] by {}
            assert(distinct(removed)) by {
                assert forall|a: int, b: int| 0 <= a < b < removed.len() implies !is_for(
                    #[trigger] removed[a],
                    (#[trigger] removed[b]).ratchet_public,
                    removed[b].counter,
                ) by {
                    let x = if a < i {
                        a
                    } else {
                        a + 1
                    };
                    let y = if b < i {
                        b
                    } else {
                        b + 1
                    };
                    assert(removed[a] == entries[x] && removed[b] == entries[y]);
                }
            }
            assert forall|k: int| 0 <= k < removed.len() implies after.cache.retains(
                (#[trigger] removed[k]).ratchet_public,
            ) by {
                let x = if k < i {
                    k
                } else {
                    k + 1
                };
                assert(removed[k] == entries[x]);
                assert(session.cache.retains(entries[x].ratchet_public));
                let generations = session.cache.generations;
                let g = choose|g: int|
                    0 <= g < generations.len() && generations.len() - g
                        <= session.cache.max_generations && (
                    #[trigger] generations[g]).ratchet_public == entries[x].ratchet_public;
                assert(after.cache.generations[g].ratchet_public == removed[k].ratchet_public);
            }
            assert forall|k: int|
                0 <= k < removed.len() && (#[trigger] removed[k]).ratchet_public
                    == after.peer_ratchet_public() implies removed[k].counter
                < after.receiving_counter by {
                let x = if k < i {
                    k
                } else {
                    k + 1
                };
                assert(removed[k] == entries[x]);
            }
            assert forall|k: int| 0 <= k < removed.len() implies !has_expired(
                after.cache.expired,
                (#[trigger] removed[k]).ratchet_public,
                removed[k].counter,
            ) by {
                let x = if k < i {
                    k
                } else {
                    k + 1
                };
                assert(removed[k] == entries[x]);
            }
        },
        None => {
            if session.cache.is_current(header.ratchet_public) {
                if session.receiving_chain.is_some() && session.receiving_counter <= header.counter
                    < u64::MAX {
                    lemma_receive_keeps_order(session, header.counter);
                }
            } else if session.cache.knows(header.ratchet_public) {
            } else if header.counter == u64::MAX {
            } else {
                match session.ratchet(header, fresh) {
                    Err(_) => {},
                    Ok(stepped) => {
                        lemma_ratchet_keeps_order(session, header, fresh);
                        lemma_receive_keeps_order(stepped, header.counter);
                    },
                }
            }
        },
    }
}

/// A Diffie-Hellman ratchet step keeps the session in order, and the new
/// receiving chain starts with nothing cached for it.
pub proof fn lemma_ratchet_keeps_order(session: SessionView, header: HeaderView, fresh: KeyPairView)
    requires
        session.bounded(),
        session.in_order(),
        !session.cache.knows(header.ratchet_public),
        session.ratchet(header, fresh).is_ok(),
    ensures
        session.ratchet(header, fresh).unwrap().bounded(),
        session.ratchet(header, fresh).unwrap().in_order(),
        session.ratchet(header, fresh).unwrap().cache.is_current(header.ratchet_public),
        session.ratchet(header, fresh).unwrap().receiving_chain.is_some(),
        session.ratchet(header, fresh).unwrap().receiving_counter == 0,
        forall|i: int|
            0 <= i < session.ratchet(header, fresh).unwrap().cache.entries.len() ==> (
            #[trigger] session.ratchet(header, fresh).unwrap().cache.entries[i]).ratchet_public
                != header.ratchet_public,
{
    let stepped = session.ratchet(header, fresh).unwrap();
    lemma_close_keeps_order(session, header.previous_chain_length);
    let closed = session.close_receiving_chain(header.previous_chain_length);
    lemma_knows(session.cache.generations, header.ratchet_public);
    lemma_knows(closed.generations, header.ratchet_public);
    lemma_open_generation_keeps_order(closed, header.ratchet_public);
    lemma_open_generation_keeps_evicted_apart(closed, header.ratchet_public);
}

/// After the chain of the current generation ended, the evicted keys are
/// those that were evicted before and the keys of the later messages of
/// the generation, and no other.
pub proof fn lemma_close(cache: CacheView, passed: u64, ratchet_public: Seq<u8>, counter: u64)
    ensures
        has_expired(cache.close(passed).expired, ratchet_public, counter) <==> has_expired(
            cache.expired,
            ratchet_public,
            counter,
        ) || (ratchet_public == cache.generations.last().ratchet_public && counter >= passed),
{
    let after = cache.close(passed).expired;
    let last = cache.expired.len() as int;
    if has_expired(after, ratchet_public, counter) {
        let k = choose|k: int|
            0 <= k < after.len() && covers(#[trigger] after[k], ratchet_public, counter);
        if k < last {
            assert(covers(cache.expired[k], ratchet_public, counter));
        }
    }
    if has_expired(cache.expired, ratchet_public, counter) {
        let k = choose|k: int|
            0 <= k < cache.expired.len() && covers(
                #[trigger] cache.expired[k],
                ratchet_public,
                counter,
            );
        assert(covers(after[k], ratchet_public, counter));
    }
    if ratchet_public == cache.generations.last().ratchet_public && counter >= passed {
        assert(covers(after[last], ratchet_public, counter));
    }
}

/// Closing the receiving chain keeps the cache in order but for what was
/// evicted of the current generation, which the chain no longer passes.
pub proof fn lemma_close_keeps_order(session: SessionView, previous_chain_length: u64)
    requires
        session.bounded(),
        session.in_order(),
    ensures
        ({
            let closed = session.close_receiving_chain(previous_chain_length);
            &&& closed.wf()
            &&& closed.generations == session.cache.generations
            &&& closed.max_entries == session.cache.max_entries
            &&& closed.max_generations == session.cache.max_generations
            &&& distinct_generations(closed.generations)
            &&& distinct(closed.entries)
            &&& forall|i: int|
                0 <= i < closed.entries.len() ==> closed.retains(
                    (#[trigger] closed.entries[i]).ratchet_public,
                )
            &&& forall|i: int|
                0 <= i < closed.entries.len() ==> !has_expired(
                    closed.expired,
                    (#[trigger] closed.entries[i]).ratchet_public,
                    closed.entries[i].counter,
                )
            &&& forall|p: Seq<u8>, n: u64| #[trigger]
                has_expired(closed.expired, p, n) ==> closed.knows(p)
        }),
{
    let current = session.peer_ratchet_public();
    let skipped = session.skip_to_length(previous_chain_length);
    let passed = session.closed_length(previous_chain_length);
    let closed = session.close_receiving_chain(previous_chain_length);
    lemma_current_is_retained(session.cache);
    lemma_retained_is_known(session.cache, current);
    if session.receiving_chain.is_some() && session.receiving_counter <= previous_chain_length {
        lemma_skip_keeps_newest(
            session.suite.hkdf,
            session.receiving_chain.unwrap(),
            session.receiving_counter,
            previous_chain_length,
            current,
            session.cache,
        );
        lemma_skip_keeps_order(
            session.suite.hkdf,
            session.receiving_chain.unwrap(),
            session.receiving_counter,
            previous_chain_length,
            current,
            session.cache,
        );
        lemma_skip_keeps_evicted_apart(
            session.suite.hkdf,
            session.receiving_chain.unwrap(),
            session.receiving_counter,
            previous_chain_length,
            current,
            session.cache,
        );
    } else {
        assert(skipped == session.cache);
    }
    assert forall|i: int| 0 <= i < closed.entries.len() implies closed.retains(
        (#[trigger] closed.entries[i]).ratchet_public,
    ) by {
        assert(skipped.retains(skipped.entries[i].ratchet_public));
        let g = choose|g: int|
            0 <= g < skipped.generations.len() && skipped.generations.len() - g
                <= skipped.max_generations && (#[trigger] skipped.generations[g]).ratchet_public
                == skipped.entries[i].ratchet_public;
        assert(closed.generations[g].ratchet_public == closed.entries[i].ratchet_public);
    }
    assert forall|i: int| 0 <= i < closed.entries.len() implies !has_expired(
        closed.expired,
        (#[trigger] closed.entries[i]).ratchet_public,
        closed.entries[i].counter,
    ) by {
        let e = skipped.entries[i];
        lemma_close(skipped, passed, e.ratchet_public, e.counter);
    }
    assert forall|p: Seq<u8>, n: u64| #[trigger]
        has_expired(closed.expired, p, n) implies closed.knows(p) by {
        lemma_close(skipped, passed, p, n);
    }
}

/// Advancing a chain in two runs is advancing it in one.
pub proof fn lemma_advance_twice(hkdf: hkdf::Algorithm, chain: Seq<u8>, first: nat, second: nat)
    ensures
        spec_advance(hkdf, spec_advance(hkdf, chain, first), second) == spec_advance(
            hkdf,
            chain,
            first + second,
        ),
    decreases first,
{
    if first > 0 {
        lemma_advance_twice(hkdf, spec_next_chain_key(hkdf, chain), (first - 1) as nat, second);
    }
}

/// The session after the messages with these headers arrived, one after
/// the other.
pub open spec fn spec_deliver(session: SessionView, order: Seq<HeaderView>, fresh: KeyPairView)
    -> SessionView
    decreases order.len(),
{
    if order.len() == 0 {
        session
    } else {
        spec_deliver(session, order.drop_last(), fresh).decrypt(order.last(), fresh).0
    }
}

/// Whether a message with the counter is among the headers.
pub open spec fn delivered(order: Seq<HeaderView>, counter: u64) -> bool {
    exists|k: int| 0 <= k < order.len() && (#[trigger] order[k]).counter == counter
}

/// Whether the entries hold the message key for the ratchet key and the
/// counter.
pub open spec fn holds(
    entries: Seq<EntryView>,
    ratchet_public: Seq<u8>,
    counter: u64,
    message_key: Seq<u8>,
) -> bool {
    exists|i: int|
        0 <= i < entries.len() && #[trigger] entries[i] == (EntryView {
            ratchet_public,
            counter,
            message_key,
        })
}

/// Whether the session `now` is the session `start` after the messages
/// `done` of its receiving chain arrived, in whatever order, with nothing
/// evicted: the chain has advanced past the latest of them, and the cache
/// holds, besides what it held, the key of every message that was passed
/// and has not arrived, and of no message that has.
pub open spec fn in_flight(start: SessionView, now: SessionView, done: Seq<HeaderView>) -> bool {
    let hkdf = start.suite.hkdf;
    let current = start.peer_ratchet_public();
    let first = start.receiving_counter;
    let chain = start.receiving_chain.unwrap();
    &&& now.bounded()
    &&& now.in_order()
    &&& now.suite == start.suite
    &&& now.peer_ratchet_public() == current
    &&& now.cache.max_entries == start.cache.max_entries
    &&& first <= now.receiving_counter
    &&& now.receiving_chain == Some(
        spec_advance(hkdf, chain, (now.receiving_counter - first) as nat),
    )
    &&& now.cache.entries.len() <= start.cache.entries.len() + (now.receiving_counter - first)
    &&& forall|j: u64|
        first <= j < now.receiving_counter && !delivered(done, j) ==> #[trigger] holds(
            now.cache.entries,
            current,
            j,
            spec_key_of(hkdf, chain, first, j),
        )
    &&& forall|j: u64| #[trigger]
        delivered(done, j) ==> first <= j < now.receiving_counter && lacks(
            now.cache.entries,
            current,
            j,
        )
    &&& forall|n: u64| #[trigger] has_expired(now.cache.expired, current, n) ==> n < first
}

/// A message of the chain that has not arrived yet, and that is within the
/// bound of the cache, decrypts to its key when it arrives, whichever
/// messages arrived before it.
pub proof fn lemma_delivery_step(
    start: SessionView,
    now: SessionView,
    done: Seq<HeaderView>,
    header: HeaderView,
    fresh: KeyPairView,
)
    requires
        start.receiving_chain.is_some(),
        in_flight(start, now, done),
        header.ratchet_public == start.peer_ratchet_public(),
        start.receiving_counter <= header.counter < u64::MAX,
        start.cache.entries.len() + (header.counter - start.receiving_counter)
            <= start.cache.max_entries,
        !delivered(done, header.counter),
    ensures
        now.decrypt(header, fresh).1 == Ok::<Seq<u8>, Error>(
            spec_key_of(
                start.suite.hkdf,
                start.receiving_chain.unwrap(),
                start.receiving_counter,
                header.counter,
            ),
        ),
        in_flight(start, now.decrypt(header, fresh).0, done.push(header)),
{
    let hkdf = start.suite.hkdf;
    let current = start.peer_ratchet_public();
    let first = start.receiving_counter;
    let chain = start.receiving_chain.unwrap();
    let c = header.counter;
    let m = now.receiving_counter;
    let entries = now.cache.entries;
    let after = now.decrypt(header, fresh).0;
    let pushed = done.push(header);
    lemma_decrypt_keeps_order(now, header, fresh);
    lemma_position_is_first(entries, current, c);
    assert forall|j: u64| delivered(pushed, j) <==> (delivered(done, j) || j == c) by {
        if delivered(done, j) {
            let k = choose|k: int| 0 <= k < done.len() && (#[trigger] done[k]).counter == j;
            assert(pushed[k].counter == j);
        }
        if j == c {
            assert(pushed[done.len() as int].counter == j);
        }
        if delivered(pushed, j) {
            let k = choose|k: int| 0 <= k < pushed.len() && (#[trigger] pushed[k]).counter == j;
            if k < done.len() {
                assert(done[k].counter == j);
            }
        }
    }
    if c < m {
        let wanted = EntryView {
            ratchet_public: current,
            counter: c,
            message_key: spec_key_of(hkdf, chain, first, c),
        };
        assert(holds(entries, current, c, spec_key_of(hkdf, chain, first, c)));
        let i = choose|i: int| 0 <= i < entries.len() && #[trigger] entries[i] == wanted;
        let found = spec_position(entries, current, c).unwrap();
        if found < i {
            assert(is_for(entries[found], entries[i].ratchet_public, entries[i].counter));
        }
        if i < found {
            assert(entries.subrange(0, found)[i] == entries[i]);
        }
        assert(found == i);
        let removed = entries.remove(i);
        assert(after.cache.entries == removed);
        assert forall|j: u64|
            first <= j < after.receiving_counter && !delivered(pushed, j) implies #[trigger] holds(
            removed,
            current,
            j,
            spec_key_of(hkdf, chain, first, j),
        ) by {
            let e = EntryView {
                ratchet_public: current,
                counter: j,
                message_key: spec_key_of(hkdf, chain, first, j),
            };
            assert(holds(entries, current, j, spec_key_of(hkdf, chain, first, j)));
            let x = choose|x: int| 0 <= x < entries.len() && #[trigger] entries[x] == e;
            if x < i {
                assert(removed[x] == e);
            } else {
                assert(removed[x - 1] == e);
            }
        }
        assert forall|j: u64| #[trigger] delivered(pushed, j) implies first <= j
            < after.receiving_counter && lacks(removed, current, j) by {
            if j != c {
                assert(delivered(done, j));
                assert(lacks(entries, current, j));
            }
            assert forall|k: int| 0 <= k < removed.len() implies !is_for(
                #[trigger] removed[k],
                current,
                j,
            ) by {
                let x = if k < i {
                    k
                } else {
                    k + 1
                };
                assert(removed[k] == entries[x]);
                if j == c {
                    if x < i {
                        assert(!is_for(entries[x], entries[i].ratchet_public, entries[i].counter));
                    } else {
                        assert(!is_for(entries[i], entries[x].ratchet_public, entries[x].counter));
                    }
                } else {
                    assert(lacks(entries, current, j));
                }
            }
        }
    } else {
        let here = now.receiving_chain.unwrap();
        let gap = (c - m) as nat;
        let skipped = spec_skipped(hkdf, here, m, gap, current);
        let all = entries + skipped;
        match spec_position(entries, current, c) {
            Some(i) => {
                assert(entries[i].counter < m);
            },
            None => {},
        }
        lemma_skip_keeps_newest(hkdf, here, m, c, current, now.cache);
        crate::doubleratchet::laws::lemma_skip_advances_chain(hkdf, here, m, c, current, now.cache);
        lemma_advance_twice(hkdf, chain, (m - first) as nat, gap);
        lemma_advance_twice(hkdf, chain, (c - first) as nat, 1);
        reveal_with_fuel(spec_advance, 2);
        assert(oldest(all, now.cache.max_entries as nat) =~= Seq::<EntryView>::empty());
        assert(after.cache.entries == all);
        assert(after.cache.expired == now.cache.expired);
        assert forall|j: u64|
            first <= j < after.receiving_counter && !delivered(pushed, j) implies #[trigger] holds(
            all,
            current,
            j,
            spec_key_of(hkdf, chain, first, j),
        ) by {
            let e = EntryView {
                ratchet_public: current,
                counter: j,
                message_key: spec_key_of(hkdf, chain, first, j),
            };
            if j < m {
                assert(holds(entries, current, j, spec_key_of(hkdf, chain, first, j)));
                let x = choose|x: int| 0 <= x < entries.len() && #[trigger] entries[x] == e;
                assert(all[x] == e);
            } else {
                lemma_advance_twice(hkdf, chain, (m - first) as nat, (j - m) as nat);
                assert(skipped[j - m] == e);
                assert(all[entries.len() + (j - m)] == e);
            }
        }
        assert forall|j: u64| #[trigger] delivered(pushed, j) implies first <= j
            < after.receiving_counter && lacks(all, current, j) by {
            if j != c {
                assert(delivered(done, j));
                assert(lacks(entries, current, j));
            }
            assert forall|k: int| 0 <= k < all.len() implies !is_for(#[trigger] all[k], current, j) by {
                if k < entries.len() {
                    assert(all[k] == entries[k]);
                    if j == c {
                        if entries[k].ratchet_public == current {
                            assert(entries[k].counter < m);
                        }
                    }
                } else {
                    assert(all[k] == skipped[k - entries.len()]);
                    assert(skipped[k - entries.len()].counter == m + (k - entries.len()));
                }
            }
        }
    }
}

/// A message of the chain that has arrived is a duplicate when it arrives
/// again, and the session stays as it is.
pub proof fn lemma_second_delivery_is_duplicate(
    start: SessionView,
    now: SessionView,
    done: Seq<HeaderView>,
    header: HeaderView,
    fresh: KeyPairView,
)
    requires
        in_flight(start, now, done),
        header.ratchet_public == start.peer_ratchet_public(),
        delivered(done, header.counter),
    ensures
        now.decrypt(header, fresh) == (now, Err::<Seq<u8>, Error>(Error::DuplicateMessage)),
{
    let current = start.peer_ratchet_public();
    lemma_position_is_first(now.cache.entries, current, header.counter);
    assert(delivered(done, header.counter));
    assert(lacks(now.cache.entries, current, header.counter));
    assert(!has_expired(now.cache.expired, current, header.counter));
}

/// Messages that arrive out of order decrypt exactly once.
///
/// Of the next `count` messages of the receiving chain, any number arrive,
/// each once, in any order; the cache has room for those that are passed
/// on the way. Then each of them decrypts, when it arrives, to the key of
/// its message, and each fails with [`Error::DuplicateMessage`] when it
/// arrives a second time, after all of them.
pub proof fn lemma_any_order_decrypts_once(
    start: SessionView,
    order: Seq<HeaderView>,
    count: nat,
    fresh: KeyPairView,
)
    requires
        start.bounded(),
        start.in_order(),
        start.receiving_chain.is_some(),
        start.receiving_counter + count < u64::MAX,
        start.cache.entries.len() + count <= start.cache.max_entries + 1,
        forall|k: int|
            0 <= k < order.len() ==> (#[trigger] order[k]).ratchet_public
                == start.peer_ratchet_public() && start.receiving_counter <= order[k].counter
                < start.receiving_counter + count,
        forall|a: int, b: int|
            0 <= a < b < order.len() ==> (#[trigger] order[a]).counter != (
            #[trigger] order[b]).counter,
    ensures
        in_flight(start, spec_deliver(start, order, fresh), order),
        forall|k: int|
            0 <= k < order.len() ==> (#[trigger] spec_deliver(
                start,
                order.subrange(0, k),
                fresh,
            )).decrypt(order[k], fresh).1 == Ok::<Seq<u8>, Error>(
                spec_key_of(
                    start.suite.hkdf,
                    start.receiving_chain.unwrap(),
                    start.receiving_counter,
                    order[k].counter,
                ),
            ),
        forall|k: int|
            0 <= k < order.len() ==> spec_deliver(start, order, fresh).decrypt(
                #[trigger] order[k],
                fresh,
            ) == (
                spec_deliver(start, order, fresh),
                Err::<Seq<u8>, Error>(Error::DuplicateMessage),
            ),
    decreases order.len(),
{
    let after = spec_deliver(start, order, fresh);
    if order.len() == 0 {
        reveal_with_fuel(spec_advance, 1);
        assert(in_flight(start, start, order));
    } else {
        let front = order.drop_last();
        let last = order.last();
        let before = spec_deliver(start, front, fresh);
        assert forall|k: int| 0 <= k < front.len() implies (#[trigger] front[k]).ratchet_public
            == start.peer_ratchet_public() && start.receiving_counter <= front[k].counter
            < start.receiving_counter + count by {
            assert(front[k] == order[k]);
        }
        assert forall|a: int, b: int| 0 <= a < b < front.len() implies (
        #[trigger] front[a]).counter != (#[trigger] front[b]).counter by {
            assert(front[a] == order[a] && front[b] == order[b]);
        }
        lemma_any_order_decrypts_once(start, front, count, fresh);
        assert(!delivered(front, last.counter)) by {
            if delivered(front, last.counter) {
                let k = choose|k: int|
                    0 <= k < front.len() && (#[trigger] front[k]).counter == last.counter;
                assert(front[k] == order[k]);
                assert(order[k].counter != order[order.len() - 1].counter);
            }
        }
        lemma_delivery_step(start, before, front, last, fresh);
        assert(front.push(last) =~= order);
        assert forall|k: int| 0 <= k < order.len() implies (#[trigger] spec_deliver(
            start,
            order.subrange(0, k),
            fresh,
        )).decrypt(order[k], fresh).1 == Ok::<Seq<u8>, Error>(
            spec_key_of(
                start.suite.hkdf,
                start.receiving_chain.unwrap(),
                start.receiving_counter,
                order[k].counter,
            ),
        ) by {
            if k < front.len() {
                assert(order.subrange(0, k) =~= front.subrange(0, k));
                assert(order[k] == front[k]);
            } else {
                assert(order.subrange(0, k) =~= front);
            }
        }
        assert forall|k: int| 0 <= k < order.len() implies after.decrypt(
            #[trigger] order[k],
            fresh,
        ) == (after, Err::<Seq<u8>, Error>(Error::DuplicateMessage)) by {
            assert(delivered(order, order[k].counter));
            lemma_second_delivery_is_duplicate(start, after, order, order[k], fresh);
        }
    }
}

/// Whether the key of a message has expired: its generation is known, the
/// key is not cached, and it was evicted or can no longer be derived.
pub open spec fn is_expired(session: SessionView, ratchet_public: Seq<u8>, counter: u64) -> bool {
    &&& session.cache.knows(ratchet_public)
    &&& lacks(session.cache.entries, ratchet_public, counter)
    &&& has_expired(session.cache.expired, ratchet_public, counter)
}

/// Whether the key of a message was used: its generation is known, the key
/// is not cached and was not evicted, and where the generation is the
/// current one the receiving chain has passed the message.
pub open spec fn is_used(session: SessionView, ratchet_public: Seq<u8>, counter: u64) -> bool {
    &&& session.cache.knows(ratchet_public)
    &&& lacks(session.cache.entries, ratchet_public, counter)
    &&& !has_expired(session.cache.expired, ratchet_public, counter)
    &&& session.cache.is_current(ratchet_public) ==> counter < session.receiving_counter
}

/// A message whose key has expired fails with
/// [`Error::MessageKeyExpired`], and the session stays as it is.
pub proof fn lemma_expired_key_is_refused(session: SessionView, header: HeaderView, fresh: KeyPairView)
    requires
        session.bounded(),
        session.in_order(),
        is_expired(session, header.ratchet_public, header.counter),
    ensures
        session.decrypt(header, fresh) == (
            session,
            Err::<Seq<u8>, Error>(Error::MessageKeyExpired),
        ),
{
    lemma_position_is_first(session.cache.entries, header.ratchet_public, header.counter);
}

/// A message whose key was used fails with [`Error::DuplicateMessage`],
/// and the session stays as it is.
pub proof fn lemma_used_key_is_refused(session: SessionView, header: HeaderView, fresh: KeyPairView)
    requires
        session.bounded(),
        session.in_order(),
        is_used(session, header.ratchet_public, header.counter),
    ensures
        session.decrypt(header, fresh) == (
            session,
            Err::<Seq<u8>, Error>(Error::DuplicateMessage),
        ),
{
    lemma_position_is_first(session.cache.entries, header.ratchet_public, header.counter);
}

/// Only a used key is a duplicate: where a message that asks for no
/// ratchet step fails with [`Error::DuplicateMessage`], its key is a used
/// one.
pub proof fn lemma_duplicate_is_used(session: SessionView, header: HeaderView, fresh: KeyPairView)
    requires
        session.bounded(),
        session.in_order(),
        !session.needs_ratchet(header),
        session.decrypt(header, fresh).1 == Err::<Seq<u8>, Error>(Error::DuplicateMessage),
    ensures
        is_used(session, header.ratchet_public, header.counter),
{
    lemma_position_is_first(session.cache.entries, header.ratchet_public, header.counter);
    lemma_current_is_retained(session.cache);
    lemma_retained_is_known(session.cache, session.peer_ratchet_public());
}

/// Skipping messages of the current chain brings back no key that the
/// cache has lost, and evicts none that it did not skip or hold.
pub proof fn lemma_skip_keeps_lost(
    hkdf: hkdf::Algorithm,
    chain: Seq<u8>,
    from: u64,
    until: u64,
    current: Seq<u8>,
    cache: CacheView,
    ratchet_public: Seq<u8>,
    counter: u64,
)
    requires
        from <= until,
        cache.wf(),
        lacks(cache.entries, ratchet_public, counter),
        ratchet_public == current ==> counter < from || until <= counter,
    ensures
        ({
            let after = spec_skip(hkdf, chain, from, until, current, cache).1;
            &&& lacks(after.entries, ratchet_public, counter)
            &&& has_expired(after.expired, ratchet_public, counter) == has_expired(
                cache.expired,
                ratchet_public,
                counter,
            )
        }),
{
    let after = spec_skip(hkdf, chain, from, until, current, cache).1;
    let max = cache.max_entries as nat;
    let skipped = spec_skipped(hkdf, chain, from, (until - from) as nat, current);
    let all = cache.entries + skipped;
    let evicted = oldest(all, max);
    let old = cache.entries.len() as int;
    lemma_skip_keeps_newest(hkdf, chain, from, until, current, cache);
    lemma_expire_each(cache.expired, evicted, ratchet_public, counter);
    let shift = if all.len() <= max {
        0int
    } else {
        all.len() - max
    };
    assert forall|k: int| 0 <= k < all.len() implies !is_for(
        #[trigger] all[k],
        ratchet_public,
        counter,
    ) by {
        if k < old {
            assert(all[k] == cache.entries[k]);
        } else {
            assert(all[k] == skipped[k - old]);
        }
    }
    assert forall|i: int| 0 <= i < after.entries.len() implies !is_for(
        #[trigger] after.entries[i],
        ratchet_public,
        counter,
    ) by {
        assert(after.entries[i] == all[i + shift]);
    }
    assert forall|k: int| 0 <= k < evicted.len() implies !is_for(
        #[trigger] evicted[k],
        ratchet_public,
        counter,
    ) by {
        assert(evicted[k] == all[k]);
    }
}

/// Making a ratchet key the current generation brings back no key that
/// the cache has lost, and evicts none but the cached keys of the
/// generation that leaves the bound.
pub proof fn lemma_open_generation_keeps_lost(
    cache: CacheView,
    opened: Seq<u8>,
    ratchet_public: Seq<u8>,
    counter: u64,
)
    requires
        lacks(cache.entries, ratchet_public, counter),
    ensures
        ({
            let after = cache.open_generation(opened);
            &&& lacks(after.entries, ratchet_public, counter)
            &&& has_expired(after.expired, ratchet_public, counter) == has_expired(
                cache.expired,
                ratchet_public,
                counter,
            )
        }),
{
    let after = cache.open_generation(opened);
    match cache.leaving() {
        Some(retired) => {
            lemma_purge(cache.entries, retired);
            lemma_retire(cache.expired, cache.entries, retired, ratchet_public, counter);
            assert forall|i: int| 0 <= i < after.entries.len() implies !is_for(
                #[trigger] after.entries[i],
                ratchet_public,
                counter,
            ) by {
                let k = choose|k: int|
                    0 <= k < cache.entries.len() && #[trigger] cache.entries[k] == after.entries[i];
                assert(!is_for(cache.entries[k], ratchet_public, counter));
            }
        },
        None => {},
    }
}

/// What the cache has lost stays lost: no message that arrives, whatever
/// its header and whatever the outcome, brings the key of a message back,
/// and none makes a used key an evicted one or an evicted key a used one.
pub proof fn lemma_lost_key_stays_lost(
    session: SessionView,
    ratchet_public: Seq<u8>,
    counter: u64,
    header: HeaderView,
    fresh: KeyPairView,
)
    requires
        session.bounded(),
        session.in_order(),
        session.cache.knows(ratchet_public),
        lacks(session.cache.entries, ratchet_public, counter),
        session.cache.is_current(ratchet_public) ==> counter < session.receiving_counter,
    ensures
        ({
            let after = session.decrypt(header, fresh).0;
            &&& after.cache.knows(ratchet_public)
            &&& lacks(after.cache.entries, ratchet_public, counter)
            &&& has_expired(after.cache.expired, ratchet_public, counter) == has_expired(
                session.cache.expired,
                ratchet_public,
                counter,
            )
            &&& after.cache.is_current(ratchet_public) ==> counter < after.receiving_counter
        }),
{
    let p = ratchet_public;
    let after = session.decrypt(header, fresh).0;
    let entries = session.cache.entries;
    let current = session.peer_ratchet_public();
    lemma_current_is_retained(session.cache);
    match session.cache.position(header.ratchet_public, header.counter) {
        Some(i) => {
            lemma_position_is_first(entries, header.ratchet_public, header.counter);
            let removed = entries.remove(i);
            assert forall|k: int| 0 <= k < removed.len() implies !is_for(
                #[trigger] removed[k],
                p,
                counter,
            ) by {
                let x = if k < i {
                    k
                } else {
                    k + 1
                };
                assert(removed[k] == entries[x]);
            }
        },
        None => {
            if session.cache.is_current(header.ratchet_public) {
                if session.receiving_chain.is_some() && session.receiving_counter <= header.counter
                    < u64::MAX {
                    lemma_skip_keeps_lost(
                        session.suite.hkdf,
                        session.receiving_chain.unwrap(),
                        session.receiving_counter,
                        header.counter,
                        current,
                        session.cache,
                        p,
                        counter,
                    );
                    lemma_skip_keeps_newest(
                        session.suite.hkdf,
                        session.receiving_chain.unwrap(),
                        session.receiving_counter,
                        header.counter,
                        current,
                        session.cache,
                    );
                }
            } else if session.cache.knows(header.ratchet_public) {
            } else if header.counter == u64::MAX {
            } else {
                match session.ratchet(header, fresh) {
                    Err(_) => {},
                    Ok(stepped) => {
                        let pn = header.previous_chain_length;
                        let skipped = session.skip_to_length(pn);
                        let closed = session.close_receiving_chain(pn);
                        lemma_ratchet_keeps_order(session, header, fresh);
                        lemma_close_keeps_order(session, pn);
                        if session.receiving_chain.is_some() && session.receiving_counter <= pn {
                            lemma_skip_keeps_lost(
                                session.suite.hkdf,
                                session.receiving_chain.unwrap(),
                                session.receiving_counter,
                                pn,
                                current,
                                session.cache,
                                p,
                                counter,
                            );
                        } else {
                            assert(skipped == session.cache);
                        }
                        lemma_close(skipped, session.closed_length(pn), p, counter);
                        lemma_open_generation_keeps_lost(closed, header.ratchet_public, p, counter);
                        lemma_open_generation_keeps_known(closed, header.ratchet_public, p);
                        lemma_skip_keeps_lost(
                            stepped.suite.hkdf,
                            stepped.receiving_chain.unwrap(),
                            0,
                            header.counter,
                            header.ratchet_public,
                            stepped.cache,
                            p,
                            counter,
                        );
                        lemma_skip_keeps_newest(
                            stepped.suite.hkdf,
                            stepped.receiving_chain.unwrap(),
                            0,
                            header.counter,
                            header.ratchet_public,
                            stepped.cache,
                        );
                    },
                }
            }
        },
    }
}

/// What has expired stays expired: no message that arrives, whatever its
/// header and whatever the outcome, brings back a key that has expired,
/// whether it was lost to the bound on the skipped keys or to the bound on
/// the generations.
pub proof fn lemma_expired_key_stays_expired(
    session: SessionView,
    ratchet_public: Seq<u8>,
    counter: u64,
    header: HeaderView,
    fresh: KeyPairView,
)
    requires
        session.bounded(),
        session.in_order(),
        is_expired(session, ratchet_public, counter),
    ensures
        is_expired(session.decrypt(header, fresh).0, ratchet_public, counter),
{
    lemma_lost_key_stays_lost(session, ratchet_public, counter, header, fresh);
}

/// What was used stays used: no message that arrives, whatever its header
/// and whatever the outcome, brings back a key that was used, or makes it
/// an evicted one.
pub proof fn lemma_used_key_stays_used(
    session: SessionView,
    ratchet_public: Seq<u8>,
    counter: u64,
    header: HeaderView,
    fresh: KeyPairView,
)
    requires
        session.bounded(),
        session.in_order(),
        is_used(session, ratchet_public, counter),
    ensures
        is_used(session.decrypt(header, fresh).0, ratchet_public, counter),
{
    lemma_lost_key_stays_lost(session, ratchet_public, counter, header, fresh);
}

/// Skipping messages loses no cached key silently: a key that the cache
/// held is held after, or was evicted.
pub proof fn lemma_skip_keeps_or_expires(
    hkdf: hkdf::Algorithm,
    chain: Seq<u8>,
    from: u64,
    until: u64,
    current: Seq<u8>,
    cache: CacheView,
    ratchet_public: Seq<u8>,
    counter: u64,
)
    requires
        from <= until,
        cache.wf(),
    ensures
        ({
            let after = spec_skip(hkdf, chain, from, until, current, cache).1;
            &&& !lacks(cache.entries, ratchet_public, counter) ==> !lacks(
                after.entries,
                ratchet_public,
                counter,
            ) || has_expired(after.expired, ratchet_public, counter)
            &&& has_expired(cache.expired, ratchet_public, counter) ==> has_expired(
                after.expired,
                ratchet_public,
                counter,
            )
        }),
{
    let after = spec_skip(hkdf, chain, from, until, current, cache).1;
    let max = cache.max_entries as nat;
    let skipped = spec_skipped(hkdf, chain, from, (until - from) as nat, current);
    let all = cache.entries + skipped;
    let evicted = oldest(all, max);
    lemma_skip_keeps_newest(hkdf, chain, from, until, current, cache);
    lemma_expire_each(cache.expired, evicted, ratchet_public, counter);
    let shift = if all.len() <= max {
        0int
    } else {
        all.len() - max
    };
    if !lacks(cache.entries, ratchet_public, counter) {
        let k = choose|k: int|
            0 <= k < cache.entries.len() && is_for(
                #[trigger] cache.entries[k],
                ratchet_public,
                counter,
            );
        assert(all[k] == cache.entries[k]);
        if k < shift {
            assert(is_for(evicted[k], ratchet_public, counter));
        } else {
            assert(is_for(after.entries[k - shift], ratchet_public, counter));
        }
    }
}

/// Opening a generation loses no cached key silently: a key that the cache
/// held is held after, or was evicted with its generation.
pub proof fn lemma_open_generation_keeps_or_expires(
    cache: CacheView,
    opened: Seq<u8>,
    ratchet_public: Seq<u8>,
    counter: u64,
)
    ensures
        ({
            let after = cache.open_generation(opened);
            &&& !lacks(cache.entries, ratchet_public, counter) ==> !lacks(
                after.entries,
                ratchet_public,
                counter,
            ) || has_expired(after.expired, ratchet_public, counter)
            &&& has_expired(cache.expired, ratchet_public, counter) ==> has_expired(
                after.expired,
                ratchet_public,
                counter,
            )
        }),
{
    let after = cache.open_generation(opened);
    match cache.leaving() {
        Some(retired) => {
            lemma_purge(cache.entries, retired);
            lemma_retire(cache.expired, cache.entries, retired, ratchet_public, counter);
            if !lacks(cache.entries, ratchet_public, counter) && ratchet_public != retired {
                let k = choose|k: int|
                    0 <= k < cache.entries.len() && is_for(
                        #[trigger] cache.entries[k],
                        ratchet_public,
                        counter,
                    );
                assert(after.entries.contains(cache.entries[k]));
                let x = choose|x: int| 0 <= x < after.entries.len() && after.entries[x]
                    == cache.entries[k];
                assert(is_for(after.entries[x], ratchet_public, counter));
            }
        },
        None => {},
    }
}

/// No cached key is lost silently: whatever message arrives, a cached key
/// other than the one that the message asks for is still cached after, or
/// has expired.
pub proof fn lemma_cached_key_is_kept_or_expires(
    session: SessionView,
    ratchet_public: Seq<u8>,
    counter: u64,
    header: HeaderView,
    fresh: KeyPairView,
)
    requires
        session.bounded(),
        session.in_order(),
        !lacks(session.cache.entries, ratchet_public, counter),
        header.ratchet_public != ratchet_public || header.counter != counter,
    ensures
        ({
            let after = session.decrypt(header, fresh).0;
            !lacks(after.cache.entries, ratchet_public, counter) || is_expired(
                after,
                ratchet_public,
                counter,
            )
        }),
{
    let p = ratchet_public;
    let after = session.decrypt(header, fresh).0;
    let entries = session.cache.entries;
    let current = session.peer_ratchet_public();
    let held = choose|k: int| 0 <= k < entries.len() && is_for(#[trigger] entries[k], p, counter);
    lemma_retained_is_known(session.cache, entries[held].ratchet_public);
    lemma_decrypt_keeps_order(session, header, fresh);
    match session.cache.position(header.ratchet_public, header.counter) {
        Some(i) => {
            lemma_position_is_first(entries, header.ratchet_public, header.counter);
            let removed = entries.remove(i);
            if held < i {
                assert(is_for(removed[held], p, counter));
            } else {
                assert(is_for(removed[held - 1], p, counter));
            }
        },
        None => {
            if session.cache.is_current(header.ratchet_public) {
                if session.receiving_chain.is_some() && session.receiving_counter <= header.counter
                    < u64::MAX {
                    lemma_skip_keeps_or_expires(
                        session.suite.hkdf,
                        session.receiving_chain.unwrap(),
                        session.receiving_counter,
                        header.counter,
                        current,
                        session.cache,
                        p,
                        counter,
                    );
                    lemma_skip_keeps_newest(
                        session.suite.hkdf,
                        session.receiving_chain.unwrap(),
                        session.receiving_counter,
                        header.counter,
                        current,
                        session.cache,
                    );
                }
            } else if session.cache.knows(header.ratchet_public) {
            } else if header.counter == u64::MAX {
            } else {
                match session.ratchet(header, fresh) {
                    Err(_) => {},
                    Ok(stepped) => {
                        let pn = header.previous_chain_length;
                        let skipped = session.skip_to_length(pn);
                        let closed = session.close_receiving_chain(pn);
                        lemma_ratchet_keeps_order(session, header, fresh);
                        lemma_close_keeps_order(session, pn);
                        if session.receiving_chain.is_some() && session.receiving_counter <= pn {
                            lemma_skip_keeps_or_expires(
                                session.suite.hkdf,
                                session.receiving_chain.unwrap(),
                                session.receiving_counter,
                                pn,
                                current,
                                session.cache,
                                p,
                                counter,
                            );
                        } else {
                            assert(skipped == session.cache);
                        }
                        lemma_close(skipped, session.closed_length(pn), p, counter);
                        lemma_open_generation_keeps_or_expires(
                            closed,
                            header.ratchet_public,
                            p,
                            counter,
                        );
                        lemma_open_generation_keeps_known(closed, header.ratchet_public, p);
                        lemma_skip_keeps_or_expires(
                            stepped.suite.hkdf,
                            stepped.receiving_chain.unwrap(),
                            0,
                            header.counter,
                            header.ratchet_public,
                            stepped.cache,
                            p,
                            counter,
                        );
                        lemma_skip_keeps_newest(
                            stepped.suite.hkdf,
                            stepped.receiving_chain.unwrap(),
                            0,
                            header.counter,
                            header.ratchet_public,
                            stepped.cache,
                        );
                    },
                }
            }
        },
    }
}

/// A key lost to the bound on the generations has expired.
///
/// A message arrives under a new ratchet key and is decrypted, so that the
/// oldest generation whose keys were kept leaves the bound. Every message
/// of that generation whose key was cached then fails with
/// [`Error::MessageKeyExpired`] when it arrives, and leaves the session as
/// it is: it starts no ratchet step.
pub proof fn lemma_key_of_generation_beyond_the_bound_expires(
    session: SessionView,
    header: HeaderView,
    fresh: KeyPairView,
    late: HeaderView,
    again: KeyPairView,
)
    requires
        session.bounded(),
        session.in_order(),
        session.needs_ratchet(header),
        session.decrypt(header, fresh).1.is_ok(),
        session.cache.leaving() == Some(late.ratchet_public),
        !lacks(session.cache.entries, late.ratchet_public, late.counter),
    ensures
        session.decrypt(header, fresh).0.decrypt(late, again) == (
            session.decrypt(header, fresh).0,
            Err::<Seq<u8>, Error>(Error::MessageKeyExpired),
        ),
{
    let after = session.decrypt(header, fresh).0;
    let p = late.ratchet_public;
    let generations = session.cache.generations;
    let len = generations.len() as int;
    let max = session.cache.max_generations as int;
    let held = choose|k: int|
        0 <= k < session.cache.entries.len() && is_for(
            #[trigger] session.cache.entries[k],
            p,
            late.counter,
        );
    lemma_retained_is_known(session.cache, session.cache.entries[held].ratchet_public);
    lemma_knows(generations, header.ratchet_public);
    lemma_position_is_first(session.cache.entries, header.ratchet_public, header.counter);
    lemma_cached_key_is_kept_or_expires(session, p, late.counter, header, fresh);
    lemma_decrypt_keeps_order(session, header, fresh);
    let stepped = session.ratchet(header, fresh).unwrap();
    lemma_ratchet_keeps_order(session, header, fresh);
    lemma_close_keeps_order(session, header.previous_chain_length);
    lemma_skip_keeps_newest(
        stepped.suite.hkdf,
        stepped.receiving_chain.unwrap(),
        0,
        header.counter,
        header.ratchet_public,
        stepped.cache,
    );
    lemma_open_generation_keeps_known(
        session.close_receiving_chain(header.previous_chain_length),
        header.ratchet_public,
        p,
    );
    assert(after.cache.generations == generations.push(
        GenerationView { ratchet_public: header.ratchet_public },
    ));
    if !lacks(after.cache.entries, p, late.counter) {
        let k = choose|k: int|
            0 <= k < after.cache.entries.len() && is_for(
                #[trigger] after.cache.entries[k],
                p,
                late.counter,
            );
        assert(after.cache.retains(after.cache.entries[k].ratchet_public));
        let g = choose|g: int|
            0 <= g < after.cache.generations.len() && after.cache.generations.len() - g <= max && (
            #[trigger] after.cache.generations[g]).ratchet_public == p;
        assert(after.cache.generations[len - max] == generations[len - max]);
        if g < len {
            assert(after.cache.generations[g] == generations[g]);
            assert(generations[len - max].ratchet_public != generations[g].ratchet_public);
        }
    }
    lemma_expired_key_is_refused(after, late, again);
}

/// A skipped key that has left the cache unused has expired.
///
/// A key is cached. Messages arrive, any number and whatever their
/// headers, none of them the message of that key. If the key is no longer
/// cached then, its message fails with [`Error::MessageKeyExpired`] and
/// leaves the session as it is, whether the key was lost to the bound on
/// the skipped keys or to the bound on the generations.
pub proof fn lemma_key_that_left_the_cache_expires(
    session: SessionView,
    order: Seq<HeaderView>,
    fresh: KeyPairView,
    late: HeaderView,
    again: KeyPairView,
)
    requires
        session.bounded(),
        session.in_order(),
        !lacks(session.cache.entries, late.ratchet_public, late.counter),
        forall|k: int|
            0 <= k < order.len() ==> (#[trigger] order[k]).ratchet_public != late.ratchet_public
                || order[k].counter != late.counter,
        lacks(spec_deliver(session, order, fresh).cache.entries, late.ratchet_public, late.counter),
    ensures
        spec_deliver(session, order, fresh).decrypt(late, again) == (
            spec_deliver(session, order, fresh),
            Err::<Seq<u8>, Error>(Error::MessageKeyExpired),
        ),
{
    lemma_delivery_keeps_or_expires(session, order, fresh, late.ratchet_public, late.counter);
    lemma_expired_key_is_refused(spec_deliver(session, order, fresh), late, again);
}

/// While messages arrive, none of them the message of a cached key, the
/// key stays cached or has expired.
pub proof fn lemma_delivery_keeps_or_expires(
    session: SessionView,
    order: Seq<HeaderView>,
    fresh: KeyPairView,
    ratchet_public: Seq<u8>,
    counter: u64,
)
    requires
        session.bounded(),
        session.in_order(),
        !lacks(session.cache.entries, ratchet_public, counter),
        forall|k: int|
            0 <= k < order.len() ==> (#[trigger] order[k]).ratchet_public != ratchet_public
                || order[k].counter != counter,
    ensures
        spec_deliver(session, order, fresh).bounded(),
        spec_deliver(session, order, fresh).in_order(),
        !lacks(spec_deliver(session, order, fresh).cache.entries, ratchet_public, counter)
            || is_expired(spec_deliver(session, order, fresh), ratchet_public, counter),
    decreases order.len(),
{
    if order.len() > 0 {
        let front = order.drop_last();
        let before = spec_deliver(session, front, fresh);
        assert forall|k: int| 0 <= k < front.len() implies (#[trigger] front[k]).ratchet_public
            != ratchet_public || front[k].counter != counter by {
            assert(front[k] == order[k]);
        }
        lemma_delivery_keeps_or_expires(session, front, fresh, ratchet_public, counter);
        assert(order[order.len() - 1] == order.last());
        lemma_decrypt_keeps_order(before, order.last(), fresh);
        if lacks(before.cache.entries, ratchet_public, counter) {
            lemma_expired_key_stays_expired(before, ratchet_public, counter, order.last(), fresh);
        } else {
            lemma_cached_key_is_kept_or_expires(
                before,
                ratchet_public,
                counter,
                order.last(),
                fresh,
            );
        }
    }
}

/// The key of the message of the current chain that was received is used.
pub proof fn lemma_received_key_is_used(session: SessionView, counter: u64)
    requires
        session.bounded(),
        session.in_order(),
        session.receiving_chain.is_some(),
        session.receiving_counter <= counter < u64::MAX,
        lacks(session.cache.entries, session.peer_ratchet_public(), counter),
    ensures
        is_used(session.receive(counter).0, session.peer_ratchet_public(), counter),
{
    let current = session.peer_ratchet_public();
    let generations = session.cache.generations;
    assert(generations[generations.len() - 1].ratchet_public == current);
    lemma_knows(generations, current);
    lemma_receive_keeps_order(session, counter);
    lemma_skip_keeps_order(
        session.suite.hkdf,
        session.receiving_chain.unwrap(),
        session.receiving_counter,
        counter,
        current,
        session.cache,
    );
    lemma_skip_keeps_lost(
        session.suite.hkdf,
        session.receiving_chain.unwrap(),
        session.receiving_counter,
        counter,
        current,
        session.cache,
        current,
        counter,
    );
}

/// The key of a message that was decrypted is used.
pub proof fn lemma_decrypted_key_is_used(session: SessionView, header: HeaderView, fresh: KeyPairView)
    requires
        session.bounded(),
        session.in_order(),
        session.decrypt(header, fresh).1.is_ok(),
    ensures
        is_used(session.decrypt(header, fresh).0, header.ratchet_public, header.counter),
{
    let p = header.ratchet_public;
    let entries = session.cache.entries;
    lemma_position_is_first(entries, p, header.counter);
    match session.cache.position(p, header.counter) {
        Some(i) => {
            let removed = entries.remove(i);
            lemma_retained_is_known(session.cache, entries[i].ratchet_public);
            assert forall|k: int| 0 <= k < removed.len() implies !is_for(
                #[trigger] removed[k],
                p,
                header.counter,
            ) by {
                let x = if k < i {
                    k
                } else {
                    k + 1
                };
                assert(removed[k] == entries[x]);
                if x < i {
                    assert(entries.subrange(0, i)[x] == entries[x]);
                } else {
                    assert(!is_for(entries[i], entries[x].ratchet_public, entries[x].counter));
                }
            }
        },
        None => {
            if session.cache.is_current(p) {
                lemma_received_key_is_used(session, header.counter);
            } else {
                let stepped = session.ratchet(header, fresh).unwrap();
                lemma_ratchet_keeps_order(session, header, fresh);
                lemma_received_key_is_used(stepped, header.counter);
            }
        },
    }
}

/// A message is decrypted once.
///
/// Once a message was decrypted, it fails with
/// [`Error::DuplicateMessage`] whenever it arrives again, whatever has
/// arrived in between, whatever has been evicted and however many ratchet
/// steps were made; and the session stays as it is.
pub proof fn lemma_message_decrypts_once(
    session: SessionView,
    header: HeaderView,
    between: Seq<HeaderView>,
    fresh: KeyPairView,
    again: KeyPairView,
)
    requires
        session.bounded(),
        session.in_order(),
        session.decrypt(header, fresh).1.is_ok(),
    ensures
        ({
            let later = spec_deliver(session.decrypt(header, fresh).0, between, fresh);
            later.decrypt(header, again) == (later, Err::<Seq<u8>, Error>(Error::DuplicateMessage))
        }),
{
    let first = session.decrypt(header, fresh).0;
    lemma_decrypt_keeps_order(session, header, fresh);
    lemma_decrypted_key_is_used(session, header, fresh);
    lemma_delivery_keeps_used(first, between, fresh, header.ratchet_public, header.counter);
    lemma_used_key_is_refused(spec_deliver(first, between, fresh), header, again);
}

/// A used key stays used while messages arrive.
pub proof fn lemma_delivery_keeps_used(
    session: SessionView,
    order: Seq<HeaderView>,
    fresh: KeyPairView,
    ratchet_public: Seq<u8>,
    counter: u64,
)
    requires
        session.bounded(),
        session.in_order(),
        is_used(session, ratchet_public, counter),
    ensures
        spec_deliver(session, order, fresh).bounded(),
        spec_deliver(session, order, fresh).in_order(),
        is_used(spec_deliver(session, order, fresh), ratchet_public, counter),
    decreases order.len(),
{
    if order.len() > 0 {
        let front = order.drop_last();
        let before = spec_deliver(session, front, fresh);
        lemma_delivery_keeps_used(session, front, fresh, ratchet_public, counter);
        lemma_decrypt_keeps_order(before, order.last(), fresh);
        lemma_used_key_stays_used(before, ratchet_public, counter, order.last(), fresh);
    }
}

} // verus!
