use vstd::prelude::*;
use crate::doubleratchet::cache::EntryView;
use crate::doubleratchet::cache::ExpiredView;
use crate::doubleratchet::cache::GenerationView;
use crate::doubleratchet::session::SessionView;
use crate::doubleratchet::wire::lemma_decode_encoded_tokens;
use crate::doubleratchet::wire::lemma_encode_decoded_tokens;
use crate::doubleratchet::wire::spec_decode_tokens;
use crate::doubleratchet::wire::spec_encode_tokens;
use crate::doubleratchet::wire::tokens_fit;
use crate::doubleratchet::wire::TokenView;
use crate::error::Error;

verus! {

/// The number that a stored session starts with.
pub const MAGIC: u64 = 0x0153_5232_4545_3245;

/// The tokens before the lists: the number that marks a stored session, the
/// algorithms, the keys and counters of the ratchet, the bounds of the
/// cache and the lengths of its lists of generations and of skipped keys.
/// The evicted counters fill the rest.
pub open spec fn header_tokens(v: SessionView) -> Seq<TokenView> {
    seq![
        TokenView::Number(MAGIC),
        TokenView::Number(v.suite.agreement.spec_code() as u64),
        TokenView::Number(v.suite.hkdf.spec_code() as u64),
        TokenView::Bytes(v.root_key),
        TokenView::Bytes(v.ratchet.private),
        TokenView::Bytes(v.ratchet.public),
        TokenView::Bytes(v.sending_chain),
        TokenView::Number(v.sending_counter),
        TokenView::Number(v.previous_sending_chain_length),
        TokenView::Number(if v.receiving_chain.is_some() { 1u64 } else { 0u64 }),
        TokenView::Bytes(
            match v.receiving_chain {
                Some(chain) => chain,
                None => Seq::empty(),
            },
        ),
        TokenView::Number(v.receiving_counter),
        TokenView::Number(v.cache.max_entries as u64),
        TokenView::Number(v.cache.max_generations as u64),
        TokenView::Number(v.cache.generations.len() as u64),
        TokenView::Number(v.cache.entries.len() as u64),
    ]
}

/// The tokens of the generations: for each, its ratchet key.
pub open spec fn generation_tokens(generations: Seq<GenerationView>) -> Seq<TokenView> {
    Seq::new(generations.len(), |i: int| TokenView::Bytes(generations[i].ratchet_public))
}

/// The tokens of the skipped keys: for each, its ratchet key, its counter
/// and the message key.
pub open spec fn entry_tokens(entries: Seq<EntryView>) -> Seq<TokenView> {
    Seq::new(
        3 * entries.len(),
        |i: int|
            if i % 3 == 0 {
                TokenView::Bytes(entries[i / 3].ratchet_public)
            } else if i % 3 == 1 {
                TokenView::Number(entries[i / 3].counter)
            } else {
                TokenView::Bytes(entries[i / 3].message_key)
            },
    )
}

/// The tokens of the evicted counters: for each run, its ratchet key, its
/// first counter and its last.
pub open spec fn expired_tokens(expired: Seq<ExpiredView>) -> Seq<TokenView> {
    Seq::new(
        3 * expired.len(),
        |i: int|
            if i % 3 == 0 {
                TokenView::Bytes(expired[i / 3].ratchet_public)
            } else if i % 3 == 1 {
                TokenView::Number(expired[i / 3].first)
            } else {
                TokenView::Number(expired[i / 3].last)
            },
    )
}

/// The tokens of a session: the whole state, the skipped keys and what was
/// evicted included.
pub open spec fn session_tokens(v: SessionView) -> Seq<TokenView> {
    header_tokens(v) + generation_tokens(v.cache.generations) + entry_tokens(v.cache.entries)
        + expired_tokens(v.cache.expired)
}

/// Where the evicted counters of a session begin among its tokens.
pub open spec fn expired_start(v: SessionView) -> int {
    16 + (v.cache.generations.len() as int) + 3 * (v.cache.entries.len() as int)
}

/// Whether every byte string and every list of the session has a length
/// that 8 bytes hold, as everything in memory has.
pub open spec fn fits(v: SessionView) -> bool {
    countable(v) && tokens_fit(session_tokens(v))
}

/// The bytes of a stored session.
pub open spec fn spec_encode(v: SessionView) -> Seq<u8> {
    spec_encode_tokens(session_tokens(v))
}

/// The session that bytes store: the valid session whose bytes they are.
/// Bytes that are the bytes of no valid session, because something is
/// missing, left over or inconsistent, are
/// [`Error::SessionStateCorrupt`].
pub open spec fn spec_decode(b: Seq<u8>) -> Result<SessionView, Error> {
    if exists|v: SessionView| v.wf() && fits(v) && spec_encode(v) == b {
        Ok(choose|v: SessionView| v.wf() && fits(v) && spec_encode(v) == b)
    } else {
        Err(Error::SessionStateCorrupt)
    }
}

/// Where each part of a session stands among its tokens.
pub proof fn lemma_session_tokens_shape(v: SessionView)
    ensures
        session_tokens(v).len() == expired_start(v) + 3 * v.cache.expired.len(),
        forall|i: int| 0 <= i < 16 ==> session_tokens(v)[i] == header_tokens(v)[i],
        forall|i: int|
            0 <= i < v.cache.generations.len() ==> #[trigger] session_tokens(v)[16 + i]
                == TokenView::Bytes(v.cache.generations[i].ratchet_public),
        forall|i: int|
            0 <= i < v.cache.entries.len() ==> #[trigger] session_tokens(v)[16
                + v.cache.generations.len() + 3 * i] == TokenView::Bytes(
                v.cache.entries[i].ratchet_public,
            ),
        forall|i: int|
            0 <= i < v.cache.entries.len() ==> #[trigger] session_tokens(v)[16
                + v.cache.generations.len() + 3 * i + 1] == TokenView::Number(
                v.cache.entries[i].counter,
            ),
        forall|i: int|
            0 <= i < v.cache.entries.len() ==> #[trigger] session_tokens(v)[16
                + v.cache.generations.len() + 3 * i + 2] == TokenView::Bytes(
                v.cache.entries[i].message_key,
            ),
        forall|i: int|
            0 <= i < v.cache.expired.len() ==> #[trigger] session_tokens(v)[expired_start(v) + 3
                * i] == TokenView::Bytes(v.cache.expired[i].ratchet_public),
        forall|i: int|
            0 <= i < v.cache.expired.len() ==> #[trigger] session_tokens(v)[expired_start(v) + 3
                * i + 1] == TokenView::Number(v.cache.expired[i].first),
        forall|i: int|
            0 <= i < v.cache.expired.len() ==> #[trigger] session_tokens(v)[expired_start(v) + 3
                * i + 2] == TokenView::Number(v.cache.expired[i].last),
{
    let g = v.cache.generations;
    let e = v.cache.entries;
    let x = v.cache.expired;
    let gt = generation_tokens(g);
    let et = entry_tokens(e);
    let xt = expired_tokens(x);
    let s = expired_start(v);
    assert forall|i: int| 0 <= i < x.len() implies #[trigger] session_tokens(v)[s + 3 * i]
        == TokenView::Bytes(x[i].ratchet_public) by {
        assert(session_tokens(v)[s + 3 * i] == xt[3 * i]);
        assert((3 * i) % 3 == 0 && (3 * i) / 3 == i);
    }
    assert forall|i: int| 0 <= i < x.len() implies #[trigger] session_tokens(v)[s + 3 * i + 1]
        == TokenView::Number(x[i].first) by {
        assert(session_tokens(v)[s + 3 * i + 1] == xt[3 * i + 1]);
        assert((3 * i + 1) % 3 == 1 && (3 * i + 1) / 3 == i);
    }
    assert forall|i: int| 0 <= i < x.len() implies #[trigger] session_tokens(v)[s + 3 * i + 2]
        == TokenView::Number(x[i].last) by {
        assert(session_tokens(v)[s + 3 * i + 2] == xt[3 * i + 2]);
        assert((3 * i + 2) % 3 == 2 && (3 * i + 2) / 3 == i);
    }
    assert forall|i: int| 0 <= i < g.len() implies #[trigger] session_tokens(v)[16 + i]
        == TokenView::Bytes(g[i].ratchet_public) by {
        assert(session_tokens(v)[16 + i] == gt[i]);
    }
    assert forall|i: int| 0 <= i < e.len() implies #[trigger] session_tokens(v)[16 + g.len() + 3
        * i] == TokenView::Bytes(e[i].ratchet_public) by {
        assert(session_tokens(v)[16 + g.len() + 3 * i] == et[3 * i]);
        assert((3 * i) % 3 == 0 && (3 * i) / 3 == i);
    }
    assert forall|i: int| 0 <= i < e.len() implies #[trigger] session_tokens(v)[16 + g.len() + 3
        * i + 1] == TokenView::Number(e[i].counter) by {
        assert(session_tokens(v)[16 + g.len() + 3 * i + 1] == et[3 * i + 1]);
        assert((3 * i + 1) % 3 == 1 && (3 * i + 1) / 3 == i);
    }
    assert forall|i: int| 0 <= i < e.len() implies #[trigger] session_tokens(v)[16 + g.len() + 3
        * i + 2] == TokenView::Bytes(e[i].message_key) by {
        assert(session_tokens(v)[16 + g.len() + 3 * i + 2] == et[3 * i + 2]);
        assert((3 * i + 2) % 3 == 2 && (3 * i + 2) / 3 == i);
    }
}

/// Whether the token of the generation `index`, in a list that begins at
/// `start`, is of its kind.
pub open spec fn generation_shape(tokens: Seq<TokenView>, start: int, index: int) -> bool {
    tokens[start + index] is Bytes
}

/// Whether the three tokens of the skipped key `index`, in a list that
/// begins at `start`, are of their kinds.
pub open spec fn entry_shape(tokens: Seq<TokenView>, start: int, index: int) -> bool {
    tokens[start + 3 * index] is Bytes && tokens[start + 3 * index + 1] is Number && tokens[start
        + 3 * index + 2] is Bytes
}

/// Whether the three tokens of the run `index` of evicted counters, in a
/// list that begins at `start`, are of their kinds.
pub open spec fn expired_shape(tokens: Seq<TokenView>, start: int, index: int) -> bool {
    tokens[start + 3 * index] is Bytes && tokens[start + 3 * index + 1] is Number && tokens[start
        + 3 * index + 2] is Number
}

/// Whether the lists of the session have lengths that 8 bytes hold, as
/// every list in memory has.
pub open spec fn countable(v: SessionView) -> bool {
    v.cache.generations.len() <= usize::MAX && v.cache.entries.len() <= usize::MAX
}

/// Whether the tokens have the shape of the tokens of the session: the
/// header of the session, then one token of its kind for each generation,
/// three for each skipped key and three for each run of evicted counters,
/// and nothing else.
pub open spec fn stored_shape(v: SessionView, tokens: Seq<TokenView>) -> bool {
    &&& countable(v)
    &&& tokens.len() == expired_start(v) + 3 * v.cache.expired.len()
    &&& forall|i: int|
        0 <= i < v.cache.expired.len() ==> #[trigger] expired_shape(tokens, expired_start(v), i)
    &&& tokens.subrange(0, 16) == header_tokens(v)
    &&& forall|i: int|
        0 <= i < v.cache.generations.len() ==> #[trigger] generation_shape(tokens, 16, i)
    &&& forall|i: int|
        0 <= i < v.cache.entries.len() ==> #[trigger] entry_shape(
            tokens,
            16 + (v.cache.generations.len() as int),
            i,
        )
}

/// The tokens of a valid session have its shape.
pub proof fn lemma_stored_shape(v: SessionView)
    requires
        v.wf(),
        countable(v),
    ensures
        stored_shape(v, session_tokens(v)),
{
    lemma_session_tokens_shape(v);
    let ts = session_tokens(v);
    assert(ts.subrange(0, 16) =~= header_tokens(v));
    assert forall|i: int| 0 <= i < v.cache.generations.len() implies #[trigger] generation_shape(
        ts,
        16,
        i,
    ) by {
        assert(ts[16 + i] is Bytes);
    }
    let g = v.cache.generations.len() as int;
    let s = expired_start(v);
    assert forall|i: int| 0 <= i < v.cache.expired.len() implies #[trigger] expired_shape(
        ts,
        s,
        i,
    ) by {
        assert(ts[s + 3 * i] is Bytes);
        assert(ts[s + 3 * i + 1] is Number);
        assert(ts[s + 3 * i + 2] is Number);
    }
    assert forall|i: int| 0 <= i < v.cache.entries.len() implies #[trigger] entry_shape(
        ts,
        16 + g,
        i,
    ) by {
        assert(ts[16 + g + 3 * i] is Bytes);
        assert(ts[16 + g + 3 * i + 1] is Number);
        assert(ts[16 + g + 3 * i + 2] is Bytes);
    }
}

/// Tokens that hold the header of a session, then its generations, its
/// skipped keys and its evicted counters one by one, are the tokens of the
/// session.
pub proof fn lemma_candidate_tokens(v: SessionView, tokens: Seq<TokenView>)
    requires
        tokens.len() == expired_start(v) + 3 * v.cache.expired.len(),
        forall|i: int|
            0 <= i < v.cache.expired.len() ==> tokens[expired_start(v) + 3 * i]
                == TokenView::Bytes((#[trigger] v.cache.expired[i]).ratchet_public)
                && tokens[expired_start(v) + 3 * i + 1] == TokenView::Number(
                v.cache.expired[i].first,
            ) && tokens[expired_start(v) + 3 * i + 2] == TokenView::Number(
                v.cache.expired[i].last,
            ),
        forall|i: int| 0 <= i < 16 ==> tokens[i] == header_tokens(v)[i],
        forall|i: int|
            0 <= i < v.cache.generations.len() ==> tokens[16 + i] == TokenView::Bytes(
                (#[trigger] v.cache.generations[i]).ratchet_public,
            ),
        forall|i: int|
            0 <= i < v.cache.entries.len() ==> tokens[16 + v.cache.generations.len() + 3 * i]
                == TokenView::Bytes((#[trigger] v.cache.entries[i]).ratchet_public) && tokens[16
                + v.cache.generations.len() + 3 * i + 1] == TokenView::Number(
                v.cache.entries[i].counter,
            ) && tokens[16 + v.cache.generations.len() + 3 * i + 2] == TokenView::Bytes(
                v.cache.entries[i].message_key,
            ),
    ensures
        session_tokens(v) == tokens,
{
    lemma_session_tokens_shape(v);
    let all = session_tokens(v);
    let g = v.cache.generations.len() as int;
    let s = expired_start(v);
    assert forall|k: int| 0 <= k < all.len() implies all[k] == tokens[k] by {
        if k < 16 {
        } else if k < 16 + g {
            let i = k - 16;
            assert(v.cache.generations[i] == v.cache.generations[i]);
            assert(k == 16 + i);
        } else if k >= s {
            let i = (k - s) / 3;
            assert(v.cache.expired[i] == v.cache.expired[i]);
            if (k - s) % 3 == 0 {
                assert(k == s + 3 * i);
            } else if (k - s) % 3 == 1 {
                assert(k == s + 3 * i + 1);
            } else {
                assert(k == s + 3 * i + 2);
            }
        } else {
            let i = (k - 16 - g) / 3;
            assert(v.cache.entries[i] == v.cache.entries[i]);
            if (k - 16 - g) % 3 == 0 {
                assert(k == 16 + g + 3 * i);
            } else if (k - 16 - g) % 3 == 1 {
                assert(k == 16 + g + 3 * i + 1);
            } else {
                assert(k == 16 + g + 3 * i + 2);
            }
        }
    }
    assert(all =~= tokens);
}

/// Two sessions with the same tokens are the same session: nothing of the
/// state is left out of the tokens.
pub proof fn lemma_tokens_determine_session(a: SessionView, b: SessionView)
    requires
        countable(a),
        countable(b),
        session_tokens(a) == session_tokens(b),
    ensures
        a == b,
{
    lemma_session_tokens_shape(a);
    lemma_session_tokens_shape(b);
    let ta = session_tokens(a);
    let tb = session_tokens(b);
    assert(ta[1] == tb[1] && ta[2] == tb[2] && ta[3] == tb[3] && ta[4] == tb[4] && ta[5] == tb[5]
        && ta[6] == tb[6] && ta[7] == tb[7] && ta[8] == tb[8] && ta[9] == tb[9] && ta[10] == tb[10]
        && ta[11] == tb[11] && ta[12] == tb[12] && ta[13] == tb[13] && ta[14] == tb[14] && ta[15]
        == tb[15]);
    assert(a.suite.agreement == b.suite.agreement);
    assert(a.suite.hkdf == b.suite.hkdf);
    assert(a.suite == b.suite);
    assert(a.cache.generations.len() == b.cache.generations.len());
    assert(a.cache.entries.len() == b.cache.entries.len());
    assert forall|i: int| 0 <= i < a.cache.generations.len() implies a.cache.generations[i]
        == b.cache.generations[i] by {
        assert(ta[16 + i] == tb[16 + i]);
    }
    assert(a.cache.generations =~= b.cache.generations);
    let g = a.cache.generations.len();
    assert forall|i: int| 0 <= i < a.cache.entries.len() implies a.cache.entries[i]
        == b.cache.entries[i] by {
        assert(ta[16 + g + 3 * i] == tb[16 + g + 3 * i]);
        assert(ta[16 + g + 3 * i + 1] == tb[16 + g + 3 * i + 1]);
        assert(ta[16 + g + 3 * i + 2] == tb[16 + g + 3 * i + 2]);
    }
    assert(a.cache.entries =~= b.cache.entries);
    let s = expired_start(a);
    assert(s == expired_start(b));
    assert(a.cache.expired.len() == b.cache.expired.len());
    assert forall|i: int| 0 <= i < a.cache.expired.len() implies a.cache.expired[i]
        == b.cache.expired[i] by {
        assert(ta[s + 3 * i] == tb[s + 3 * i]);
        assert(ta[s + 3 * i + 1] == tb[s + 3 * i + 1]);
        assert(ta[s + 3 * i + 2] == tb[s + 3 * i + 2]);
    }
    assert(a.cache.expired =~= b.cache.expired);
    assert(a.cache == b.cache);
    assert(a.ratchet == b.ratchet);
    assert(a.receiving_chain == b.receiving_chain);
}

/// A session is loaded again from what was stored of it: loading the stored
/// bytes of a valid session gives that session, whole, with its skipped
/// keys.
pub proof fn lemma_stored_session_is_loaded(v: SessionView)
    requires
        v.wf(),
        fits(v),
    ensures
        spec_decode(spec_encode(v)) == Ok::<SessionView, Error>(v),
{
    let b = spec_encode(v);
    let w = choose|w: SessionView| w.wf() && fits(w) && spec_encode(w) == b;
    lemma_decode_encoded_tokens(session_tokens(v));
    lemma_decode_encoded_tokens(session_tokens(w));
    lemma_tokens_determine_session(v, w);
}

/// What is loaded is what was stored: bytes that load as a session are the
/// stored bytes of that session, and of no other.
pub proof fn lemma_loaded_session_was_stored(b: Seq<u8>)
    requires
        spec_decode(b).is_ok(),
    ensures
        spec_encode(spec_decode(b).unwrap()) == b,
        spec_decode(b).unwrap().wf(),
{
}

/// The bytes of a list of tokens that is the tokens of a valid session
/// load as that session; the bytes of any other list of tokens, and bytes
/// that are no list of tokens, are corrupt.
pub proof fn lemma_decode_by_tokens(b: Seq<u8>)
    ensures
        match spec_decode_tokens(b) {
            None => spec_decode(b) == Err::<SessionView, Error>(Error::SessionStateCorrupt),
            Some(tokens) => {
                &&& forall|v: SessionView|
                    v.wf() && countable(v) && session_tokens(v) == tokens ==> spec_decode(b)
                        == Ok::<SessionView, Error>(v)
                &&& (forall|v: SessionView|
                    v.wf() && countable(v) ==> session_tokens(v) != tokens) ==> spec_decode(b)
                    == Err::<SessionView, Error>(Error::SessionStateCorrupt)
            },
        },
{
    assert forall|v: SessionView| v.wf() && fits(v) && spec_encode(v) == b implies spec_decode_tokens(
        b,
    ) == Some(session_tokens(v)) by {
        lemma_decode_encoded_tokens(session_tokens(v));
    }
    match spec_decode_tokens(b) {
        None => {},
        Some(tokens) => {
            lemma_encode_decoded_tokens(b);
            assert forall|v: SessionView|
                v.wf() && countable(v) && session_tokens(v) == tokens implies spec_decode(b) == Ok::<
                SessionView,
                Error,
            >(v) by {
                assert(fits(v));
                assert(spec_encode(v) == b);
                let w = choose|w: SessionView| w.wf() && fits(w) && spec_encode(w) == b;
                lemma_tokens_determine_session(v, w);
            }
        },
    }
}

} // verus!
