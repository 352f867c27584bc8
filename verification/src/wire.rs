//! The messages that a client and a broker exchange.
//!
//! A request is the four magic bytes, the protocol's version and the broker's sixteen-byte token.
//! The response is the magic bytes and the version, with the descriptor travelling beside it.
use vstd::prelude::*;

verus! {

/// The bytes that every message starts with: `VPSH`.
pub const PROTOCOL_MAGIC: [u8; 4] = [86, 80, 83, 72];

/// The version of the protocol, which follows the magic bytes.
pub const PROTOCOL_VERSION: u8 = 1;

/// How many bytes a broker's token has.
pub const TOKEN_LEN: usize = 16;

/// How many bytes a request has.
pub const REQUEST_LEN: usize = 4 + 1 + TOKEN_LEN;

/// How many bytes the response has.
pub const RESPONSE_LEN: usize = 4 + 1;

/// The broker's response.
pub const RESPONSE: [u8; 5] = [86, 80, 83, 72, PROTOCOL_VERSION];

/// What every message starts with: the magic bytes and the version.
pub open spec fn header_bytes() -> Seq<u8> {
    PROTOCOL_MAGIC@.push(PROTOCOL_VERSION)
}

/// The request that asks the broker with this token for its descriptor.
pub open spec fn request_bytes(token: Seq<u8>) -> Seq<u8> {
    header_bytes() + token
}

/// Builds the request that carries `token`.
pub fn encode_request(token: &[u8; TOKEN_LEN]) -> (request: [u8; REQUEST_LEN])
    ensures
        request@ == request_bytes(token@),
{
    let mut request: [u8; REQUEST_LEN] = [0; REQUEST_LEN];
    let mut i: usize = 0;
    while i < 4
        invariant
            0 <= i <= 4,
            forall|k: int| 0 <= k < i ==> request@[k] == header_bytes()[k],
        decreases 4 - i,
    {
        request[i] = PROTOCOL_MAGIC[i];
        i += 1;
    }
    request[4] = PROTOCOL_VERSION;
    let mut j: usize = 0;
    while j < TOKEN_LEN
        invariant
            0 <= j <= TOKEN_LEN,
            forall|k: int| 0 <= k < 5 + j ==> request@[k] == request_bytes(token@)[k],
        decreases TOKEN_LEN - j,
    {
        request[5 + j] = token[j];
        j += 1;
    }
    assert(request@ =~= request_bytes(token@));
    request
}

/// Tells whether `request` is the request that asks the broker with this token for its
/// descriptor: magic bytes, version and token all have to match.
pub fn valid_request(request: &[u8; REQUEST_LEN], token: &[u8; TOKEN_LEN]) -> (valid: bool)
    ensures
        valid == (request@ == request_bytes(token@)),
{
    let expected: [u8; REQUEST_LEN] = encode_request(token);
    let mut i: usize = 0;
    while i < REQUEST_LEN
        invariant
            0 <= i <= REQUEST_LEN,
            expected@ == request_bytes(token@),
            forall|k: int| 0 <= k < i ==> request@[k] == expected@[k],
        decreases REQUEST_LEN - i,
    {
        if request[i] != expected[i] {
            return false;
        }
        i += 1;
    }
    assert(request@ =~= expected@);
    true
}

/// Tells whether a receive buffer, which has room for one byte more than the response, starts with
/// the broker's response.
pub fn starts_with_response(buffer: &[u8; 6]) -> (matches: bool)
    ensures
        matches == (buffer@.subrange(0, RESPONSE_LEN as int) == RESPONSE@),
{
    let mut i: usize = 0;
    while i < RESPONSE_LEN
        invariant
            0 <= i <= RESPONSE_LEN,
            forall|k: int| 0 <= k < i ==> buffer@[k] == RESPONSE@[k],
        decreases RESPONSE_LEN - i,
    {
        if buffer[i] != RESPONSE[i] {
            assert(buffer@.subrange(0, RESPONSE_LEN as int)[i as int] != RESPONSE@[i as int]);
            return false;
        }
        i += 1;
    }
    assert(buffer@.subrange(0, RESPONSE_LEN as int) =~= RESPONSE@);
    true
}

/// The response is the header that every message starts with.
pub proof fn law_response_is_header()
    ensures
        RESPONSE@ == header_bytes(),
        RESPONSE@.len() == RESPONSE_LEN,
{
    assert(RESPONSE@ =~= header_bytes());
}

/// A request is accepted by a broker exactly when it was built with that broker's token.
pub proof fn law_request_carries_its_token(sent: Seq<u8>, expected: Seq<u8>)
    ensures
        request_bytes(sent) == request_bytes(expected) <==> sent == expected,
        request_bytes(sent).len() == header_bytes().len() + sent.len(),
{
    let header: int = header_bytes().len() as int;
    assert(request_bytes(sent).skip(header) =~= sent);
    assert(request_bytes(expected).skip(header) =~= expected);
}

/// The built request, byte by byte: `VPSH`, the version 1 and the sixteen bytes of the token.
pub proof fn law_built_request_is_exact(token: &[u8; TOKEN_LEN], request: [u8; REQUEST_LEN])
    requires
        call_ensures(encode_request, (token,), request),
    ensures
        request@.len() == 21,
        token@.len() == 16,
        request@[0] == 86 && request@[1] == 80 && request@[2] == 83 && request@[3] == 72,
        request@[4] == 1,
        forall|i: int| 0 <= i < 16 ==> #[trigger] token@[i] == request@[5 + i],
{
}

/// A request is valid for a token exactly when each of its bytes is right: the four magic bytes, the
/// version and all sixteen bytes of the token.
pub proof fn law_every_byte_of_a_request_counts(
    request: &[u8; REQUEST_LEN],
    token: &[u8; TOKEN_LEN],
    valid: bool,
)
    requires
        call_ensures(valid_request, (request, token), valid),
    ensures
        valid <==> {
            &&& request@[0] == 86 && request@[1] == 80 && request@[2] == 83 && request@[3] == 72
            &&& request@[4] == 1
            &&& forall|i: int| 0 <= i < 16 ==> #[trigger] token@[i] == request@[5 + i]
        },
{
    if request@[0] == 86 && request@[1] == 80 && request@[2] == 83 && request@[3] == 72
        && request@[4] == 1 && (forall|i: int|
        0 <= i < 16 ==> #[trigger] token@[i] == request@[5 + i]) {
        assert forall|k: int| 5 <= k < 21 implies request@[k] == request_bytes(token@)[k] by {
            assert(token@[k - 5] == request@[5 + (k - 5)]);
        }
        assert(request@ =~= request_bytes(token@));
    }
}

/// A receive buffer is taken for the response exactly when its first five bytes are `VPSH` and the
/// version 1; what follows them does not count.
pub proof fn law_response_is_known_by_its_bytes(buffer: &[u8; 6], matches: bool)
    requires
        call_ensures(starts_with_response, (buffer,), matches),
    ensures
        matches <==> buffer@[0] == 86 && buffer@[1] == 80 && buffer@[2] == 83 && buffer@[3] == 72
            && buffer@[4] == 1,
        RESPONSE@ == seq![86u8, 80, 83, 72, 1],
{
    let first = buffer@.subrange(0, RESPONSE_LEN as int);
    assert(first.len() == 5);
    assert(RESPONSE@ =~= seq![86u8, 80, 83, 72, 1]);
    assert(first[0] == buffer@[0] && first[1] == buffer@[1] && first[2] == buffer@[2] && first[3]
        == buffer@[3] && first[4] == buffer@[4]);
    if matches {
        assert(RESPONSE@[0] == first[0]);
    } else if buffer@[0] == 86 && buffer@[1] == 80 && buffer@[2] == 83 && buffer@[3] == 72
        && buffer@[4] == 1 {
        assert(first =~= RESPONSE@);
    }
}

} // verus!
