use vstd::prelude::*;
use vstd::bytes::lemma_auto_spec_u64_to_from_le_bytes;
use vstd::bytes::spec_u64_from_le_bytes;
use vstd::bytes::spec_u64_to_le_bytes;
use vstd::bytes::u64_from_le_bytes;
use vstd::bytes::u64_to_le_bytes;
use crate::bytes;

verus! {

/// What a token holds.
pub enum TokenView {
    /// A number.
    Number(u64),
    /// A byte string.
    Bytes(Seq<u8>),
}

/// One item of a stored session: a number or a byte string.
pub enum Token {
    /// A number.
    Number(u64),
    /// A byte string.
    Bytes(Vec<u8>),
}

impl View for Token {
    type V = TokenView;

    open spec fn view(&self) -> TokenView {
        match self {
            Token::Number(n) => TokenView::Number(*n),
            Token::Bytes(b) => TokenView::Bytes(b@),
        }
    }
}

/// The views of the tokens.
pub open spec fn token_views(tokens: Seq<Token>) -> Seq<TokenView> {
    Seq::new(tokens.len(), |i: int| tokens[i]@)
}

/// The bytes of a token: a tag, `0` for a number and `1` for a byte string,
/// then the number, or the length and the bytes. Numbers and lengths are 8
/// bytes, little-endian.
pub open spec fn spec_encode_token(token: TokenView) -> Seq<u8> {
    match token {
        TokenView::Number(n) => seq![0u8] + spec_u64_to_le_bytes(n),
        TokenView::Bytes(b) => seq![1u8] + spec_u64_to_le_bytes(b.len() as u64) + b,
    }
}

/// The bytes of a list of tokens: those of each token, in order.
pub open spec fn spec_encode_tokens(tokens: Seq<TokenView>) -> Seq<u8>
    decreases tokens.len(),
{
    if tokens.len() == 0 {
        Seq::empty()
    } else {
        spec_encode_token(tokens[0]) + spec_encode_tokens(tokens.subrange(1, tokens.len() as int))
    }
}

/// The token at the start of the bytes and the bytes after it, or `None`
/// where no token starts there.
pub open spec fn spec_decode_token(b: Seq<u8>) -> Option<(TokenView, Seq<u8>)> {
    if b.len() < 9 {
        None
    } else if b[0] == 0 {
        Some(
            (
                TokenView::Number(spec_u64_from_le_bytes(b.subrange(1, 9))),
                b.subrange(9, b.len() as int),
            ),
        )
    } else if b[0] == 1 {
        let n = spec_u64_from_le_bytes(b.subrange(1, 9));
        if n <= b.len() - 9 {
            Some((TokenView::Bytes(b.subrange(9, 9 + n)), b.subrange(9 + n, b.len() as int)))
        } else {
            None
        }
    } else {
        None
    }
}

/// The tokens that the bytes are made of, or `None` where they are not a
/// list of tokens.
pub open spec fn spec_decode_tokens(b: Seq<u8>) -> Option<Seq<TokenView>>
    decreases b.len(),
{
    if b.len() == 0 {
        Some(Seq::empty())
    } else {
        match spec_decode_token(b) {
            None => None,
            Some((token, rest)) => if rest.len() < b.len() {
                match spec_decode_tokens(rest) {
                    None => None,
                    Some(tokens) => Some(seq![token] + tokens),
                }
            } else {
                None
            },
        }
    }
}

/// Whether every byte string among the tokens has a length that 8 bytes
/// hold.
pub open spec fn tokens_fit(tokens: Seq<TokenView>) -> bool {
    forall|i: int|
        0 <= i < tokens.len() ==> (#[trigger] tokens[i] matches TokenView::Bytes(b) ==> b.len()
            <= u64::MAX)
}

/// A token is read back from its bytes, whatever follows them.
pub proof fn lemma_decode_encoded_token(token: TokenView, rest: Seq<u8>)
    requires
        token matches TokenView::Bytes(b) ==> b.len() <= u64::MAX,
    ensures
        spec_decode_token(spec_encode_token(token) + rest) == Some((token, rest)),
        spec_encode_token(token).len() >= 9,
{
    lemma_auto_spec_u64_to_from_le_bytes();
    let b = spec_encode_token(token) + rest;
    match token {
        TokenView::Number(n) => {
            assert(b.subrange(1, 9) =~= spec_u64_to_le_bytes(n));
            assert(b.subrange(9, b.len() as int) =~= rest);
        },
        TokenView::Bytes(s) => {
            assert(b.subrange(1, 9) =~= spec_u64_to_le_bytes(s.len() as u64));
            assert(b.subrange(9, 9 + s.len() as int) =~= s);
            assert(b.subrange(9 + s.len() as int, b.len() as int) =~= rest);
        },
    }
}

/// The bytes at which a token was read are the bytes of the token, then the
/// bytes after it.
pub proof fn lemma_encode_decoded_token(b: Seq<u8>)
    requires
        spec_decode_token(b).is_some(),
    ensures
        b == spec_encode_token(spec_decode_token(b).unwrap().0) + spec_decode_token(
            b,
        ).unwrap().1,
        spec_decode_token(b).unwrap().1.len() < b.len(),
        spec_decode_token(b).unwrap().0 matches TokenView::Bytes(s) ==> s.len() <= u64::MAX,
{
    lemma_auto_spec_u64_to_from_le_bytes();
    let (token, rest) = spec_decode_token(b).unwrap();
    assert(spec_u64_to_le_bytes(spec_u64_from_le_bytes(b.subrange(1, 9))) == b.subrange(1, 9));
    assert(b =~= spec_encode_token(token) + rest);
}

/// A list of tokens is read back from its bytes.
pub proof fn lemma_decode_encoded_tokens(tokens: Seq<TokenView>)
    requires
        tokens_fit(tokens),
    ensures
        spec_decode_tokens(spec_encode_tokens(tokens)) == Some(tokens),
    decreases tokens.len(),
{
    if tokens.len() > 0 {
        let rest = tokens.subrange(1, tokens.len() as int);
        assert(tokens_fit(rest)) by {
            assert forall|i: int| 0 <= i < rest.len() implies (#[trigger] rest[i] matches TokenView::Bytes(
                b,
            ) ==> b.len() <= u64::MAX) by {
                assert(rest[i] == tokens[i + 1]);
            }
        }
        lemma_decode_encoded_tokens(rest);
        lemma_decode_encoded_token(tokens[0], spec_encode_tokens(rest));
        assert(seq![tokens[0]] + rest =~= tokens);
    }
}

/// The bytes from which a list of tokens was read are the bytes of the
/// list.
pub proof fn lemma_encode_decoded_tokens(b: Seq<u8>)
    requires
        spec_decode_tokens(b).is_some(),
    ensures
        spec_encode_tokens(spec_decode_tokens(b).unwrap()) == b,
        tokens_fit(spec_decode_tokens(b).unwrap()),
    decreases b.len(),
{
    if b.len() > 0 {
        let (token, rest) = spec_decode_token(b).unwrap();
        lemma_encode_decoded_token(b);
        lemma_encode_decoded_tokens(rest);
        let tokens = spec_decode_tokens(rest).unwrap();
        let all = seq![token] + tokens;
        assert(all.subrange(1, all.len() as int) =~= tokens);
        assert(all[0] == token);
        assert forall|i: int| 0 <= i < all.len() implies (#[trigger] all[i] matches TokenView::Bytes(
            s,
        ) ==> s.len() <= u64::MAX) by {
            if i > 0 {
                assert(all[i] == tokens[i - 1]);
            }
        }
    } else {
        assert(b =~= Seq::<u8>::empty());
    }
}

/// Appending a token to a list appends its bytes to the bytes of the list.
pub proof fn lemma_encode_pushed_token(tokens: Seq<TokenView>, token: TokenView)
    ensures
        spec_encode_tokens(tokens.push(token)) == spec_encode_tokens(tokens) + spec_encode_token(
            token,
        ),
    decreases tokens.len(),
{
    let pushed = tokens.push(token);
    if tokens.len() == 0 {
        assert(pushed.subrange(1, 1) =~= Seq::<TokenView>::empty());
        assert(spec_encode_tokens(pushed.subrange(1, 1)) =~= Seq::<u8>::empty());
        assert(spec_encode_tokens(pushed) =~= spec_encode_token(token));
        assert(spec_encode_tokens(tokens) =~= Seq::<u8>::empty());
        assert(spec_encode_tokens(tokens) + spec_encode_token(token) =~= spec_encode_token(token));
    } else {
        let rest = tokens.subrange(1, tokens.len() as int);
        lemma_encode_pushed_token(rest, token);
        assert(pushed.subrange(1, pushed.len() as int) =~= rest.push(token));
        assert(spec_encode_tokens(pushed) =~= spec_encode_tokens(tokens) + spec_encode_token(
            token,
        ));
    }
}

/// Writes a number as a token.
pub fn write_number(out: &mut Vec<u8>, n: u64)
    ensures
        final(out)@ == old(out)@ + spec_encode_token(TokenView::Number(n)),
{
    out.push(0u8);
    let digits = u64_to_le_bytes(n);
    bytes::append(out, digits.as_slice());
    assert(out@ =~= old(out)@ + spec_encode_token(TokenView::Number(n)));
}

/// Writes a byte string as a token.
pub fn write_bytes(out: &mut Vec<u8>, b: &[u8])
    ensures
        final(out)@ == old(out)@ + spec_encode_token(TokenView::Bytes(b@)),
{
    out.push(1u8);
    let digits = u64_to_le_bytes(b.len() as u64);
    bytes::append(out, digits.as_slice());
    bytes::append(out, b);
    assert(out@ =~= old(out)@ + spec_encode_token(TokenView::Bytes(b@)));
}

/// Reads the tokens that the bytes are made of, or `None` where they are
/// not a list of tokens.
pub fn read_tokens(b: &[u8]) -> (r: Option<Vec<Token>>)
    ensures
        match r {
            Some(tokens) => spec_decode_tokens(b@) == Some(token_views(tokens@)),
            None => spec_decode_tokens(b@).is_none(),
        },
{
    let mut tokens: Vec<Token> = Vec::new();
    let mut pos: usize = 0;
    let n = b.len();
    assert(b@.subrange(0, n as int) =~= b@);
    assert(token_views(tokens@) =~= Seq::<TokenView>::empty());
    while pos < n
        invariant
            pos <= n,
            n == b@.len(),
            spec_decode_tokens(b@) == match spec_decode_tokens(b@.subrange(pos as int, n as int)) {
                Some(rest) => Some(token_views(tokens@) + rest),
                None => None,
            },
        decreases n - pos,
    {
        let ghost here = b@.subrange(pos as int, n as int);
        if n - pos < 9 {
            return None;
        }
        let tag = b[pos];
        let digits = bytes::slice(b, pos + 1, pos + 9);
        assert(digits@ =~= here.subrange(1, 9));
        let value = u64_from_le_bytes(digits.as_slice());
        let ghost before = token_views(tokens@);
        if tag == 0 {
            tokens.push(Token::Number(value));
            pos = pos + 9;
            proof {
                let (token, rest) = spec_decode_token(here).unwrap();
                assert(rest =~= b@.subrange(pos as int, n as int));
                assert(token_views(tokens@) =~= before.push(token));
                match spec_decode_tokens(rest) {
                    Some(more) => {
                        assert(before + (seq![token] + more) =~= before.push(token) + more);
                    },
                    None => {},
                }
            }
        } else if tag == 1 {
            if value > (n - pos - 9) as u64 {
                return None;
            }
            let len = value as usize;
            let payload = bytes::slice(b, pos + 9, pos + 9 + len);
            assert(payload@ =~= here.subrange(9, 9 + len));
            tokens.push(Token::Bytes(payload));
            pos = pos + 9 + len;
            proof {
                let (token, rest) = spec_decode_token(here).unwrap();
                assert(rest =~= b@.subrange(pos as int, n as int));
                assert(token_views(tokens@) =~= before.push(token));
                match spec_decode_tokens(rest) {
                    Some(more) => {
                        assert(before + (seq![token] + more) =~= before.push(token) + more);
                    },
                    None => {},
                }
            }
        } else {
            return None;
        }
    }
    proof {
        assert(b@.subrange(n as int, n as int) =~= Seq::<u8>::empty());
        assert(token_views(tokens@) + Seq::<TokenView>::empty() =~= token_views(tokens@));
    }
    Some(tokens)
}

/// Writes the tokens, in order.
pub fn encode_tokens(tokens: &Vec<Token>) -> (r: Vec<u8>)
    ensures
        r@ == spec_encode_tokens(token_views(tokens@)),
        tokens_fit(token_views(tokens@)),
{
    let mut out: Vec<u8> = Vec::new();
    let mut i: usize = 0;
    let ghost all = token_views(tokens@);
    assert(all.subrange(0, 0) =~= Seq::<TokenView>::empty());
    while i < tokens.len()
        invariant
            i <= tokens@.len(),
            all == token_views(tokens@),
            out@ == spec_encode_tokens(all.subrange(0, i as int)),
            tokens_fit(all.subrange(0, i as int)),
        decreases tokens@.len() - i,
    {
        proof {
            lemma_encode_pushed_token(all.subrange(0, i as int), all[i as int]);
            assert(all.subrange(0, i + 1) =~= all.subrange(0, i as int).push(all[i as int]));
        }
        match &tokens[i] {
            Token::Number(n) => write_number(&mut out, *n),
            Token::Bytes(b) => {
                assert(b@.len() == b.len());
                write_bytes(&mut out, b.as_slice());
            },
        }
        i += 1;
    }
    assert(all.subrange(0, all.len() as int) =~= all);
    out
}

/// The number at `index`, or `None` where the token there is a byte
/// string.
pub fn number_at(tokens: &Vec<Token>, index: usize) -> (r: Option<u64>)
    requires
        index < tokens@.len(),
    ensures
        match r {
            Some(n) => token_views(tokens@)[index as int] == TokenView::Number(n),
            None => token_views(tokens@)[index as int] is Bytes,
        },
{
    match &tokens[index] {
        Token::Number(n) => Some(*n),
        Token::Bytes(_) => None,
    }
}

/// The byte string at `index`, or `None` where the token there is a
/// number.
pub fn bytes_at(tokens: &Vec<Token>, index: usize) -> (r: Option<Vec<u8>>)
    requires
        index < tokens@.len(),
    ensures
        match r {
            Some(b) => token_views(tokens@)[index as int] == TokenView::Bytes(b@),
            None => token_views(tokens@)[index as int] is Number,
        },
{
    match &tokens[index] {
        Token::Number(_) => None,
        Token::Bytes(b) => Some(bytes::copy(b.as_slice())),
    }
}

} // verus!
