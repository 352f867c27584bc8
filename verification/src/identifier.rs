//! The text by which a process finds a broker.
//!
//! An identifier is `fspy-memfd-v1.<name>.<token>`, where the broker's abstract socket name and its
//! token are written in unpadded URL-safe Base64.
use vstd::prelude::*;

use crate::base64url;
use crate::error::Error;
use crate::wire::TOKEN_LEN;

verus! {

/// What every identifier starts with.
pub const ID_PREFIX: &'static str = "fspy-memfd-v1";

/// The prefix and two parts, joined by dots.
pub open spec fn joined(first: Seq<char>, second: Seq<char>) -> Seq<char> {
    ID_PREFIX@ + seq!['.'] + first + seq!['.'] + second
}

/// The identifier of the broker with this abstract socket name and this token.
pub open spec fn identifier(abstract_name: Seq<u8>, token: Seq<u8>) -> Seq<char> {
    joined(base64url::text(abstract_name), base64url::text(token))
}

/// Tells that `id` leads to the broker with this name and this token.  A broker's name is not
/// empty.
pub open spec fn leads_to(id: Seq<char>, abstract_name: Seq<u8>, token: Seq<u8>) -> bool {
    &&& id == identifier(abstract_name, token)
    &&& abstract_name.len() > 0
    &&& token.len() == TOKEN_LEN
}

/// Tells that `id` leads to no broker at all.
pub open spec fn leads_nowhere(id: Seq<char>) -> bool {
    forall|abstract_name: Seq<u8>, token: Seq<u8>| !leads_to(id, abstract_name, token)
}

/// Tells that a text holds no dot.
pub open spec fn without_dot(part: Seq<char>) -> bool {
    forall|i: int| 0 <= i < part.len() ==> part[i] != '.'
}

/// Writes the identifier of the broker with this abstract socket name and this token.
pub fn encode_id(abstract_name: &[u8], token: &[u8; TOKEN_LEN]) -> (id: String)
    requires
        identifier(abstract_name@, token@).len() <= isize::MAX,
    ensures
        id@ == identifier(abstract_name@, token@),
{
    proof {
        lemma_identifier_len(abstract_name@, token@);
    }
    let name_text: String = base64url::encode(abstract_name);
    let token_text: String = base64url::encode(token.as_slice());
    proof {
        reveal_strlit(".");
    }
    let id: String = ID_PREFIX.to_owned().concat(".").concat(name_text.as_str()).concat(".").concat(
        token_text.as_str(),
    );
    assert("."@ =~= seq!['.']);
    id
}

/// The error of a text that is no identifier.
pub fn invalid_id() -> (error: Error)
    ensures
        error == Error::InvalidIdentifier,
{
    Error::InvalidIdentifier
}

/// Splits a text of exactly three parts, the first of which is the prefix, into the other two.
pub fn split_id(id: &str) -> (parts: Option<(&str, &str)>)
    ensures
        match parts {
            Some((first, second)) => {
                &&& id@ == joined(first@, second@)
                &&& without_dot(first@)
                &&& without_dot(second@)
            },
            None => forall|first: Seq<char>, second: Seq<char>|
                #![trigger joined(first, second)]
                without_dot(first) && without_dot(second) ==> id@ != joined(first, second),
        },
{
    let len: usize = id.unicode_len();
    let mut found: usize = 0;
    let mut first_dot: usize = 0;
    let mut second_dot: usize = 0;
    let mut index: usize = 0;
    for c in chars: id.chars()
        invariant
            chars.seq() == id@,
            index == chars.index(),
            len == id@.len(),
            dots_up_to(id@, index as int, found as int, first_dot as int, second_dot as int),
    {
        if c == '.' {
            if found == 0 {
                first_dot = index;
            } else if found == 1 {
                second_dot = index;
            } else {
                assert forall|first: Seq<char>, second: Seq<char>|
                    without_dot(first) && without_dot(second) implies id@ != #[trigger] joined(
                    first,
                    second,
                ) by {
                    if id@ == joined(first, second) {
                        lemma_dots_of_joined(first, second);
                    }
                }
                return None;
            }
            found += 1;
        }
        index += 1;
    }
    if found == 2 {
        let prefix: &str = id.substring_char(0, first_dot);
        let first: &str = id.substring_char(first_dot + 1, second_dot);
        let second: &str = id.substring_char(second_dot + 1, len);
        if prefix.to_owned() == ID_PREFIX.to_owned() {
            assert(id@ =~= joined(first@, second@));
            return Some((first, second));
        }
    }
    assert forall|first: Seq<char>, second: Seq<char>|
        without_dot(first) && without_dot(second) implies id@ != #[trigger] joined(
        first,
        second,
    ) by {
        if id@ == joined(first, second) {
            lemma_dots_of_joined(first, second);
            let prefix_len = ID_PREFIX@.len() as int;
            assert(joined(first, second)[prefix_len] == '.');
            assert(joined(first, second)[prefix_len + 1 + first.len()] == '.');
            assert(id@.subrange(0, prefix_len) =~= ID_PREFIX@);
        }
    }
    None
}

/// Tells that the first `end` characters hold exactly `found` dots, at most two, and where.
spec fn dots_up_to(
    text: Seq<char>,
    end: int,
    found: int,
    first_dot: int,
    second_dot: int,
) -> bool {
    &&& 0 <= found <= 2
    &&& found >= 1 ==> 0 <= first_dot < end && text[first_dot] == '.'
    &&& found == 2 ==> first_dot < second_dot < end && text[second_dot] == '.'
    &&& forall|i: int|
        0 <= i < end && text[i] == '.' ==> (found >= 1 && i == first_dot) || (found == 2 && i
            == second_dot)
}

/// A joined text holds two dots: the ones that join it.
proof fn lemma_dots_of_joined(first: Seq<char>, second: Seq<char>)
    requires
        without_dot(first),
        without_dot(second),
    ensures
        joined(first, second).len() == ID_PREFIX@.len() + 2 + first.len() + second.len(),
        forall|i: int|
            0 <= i < joined(first, second).len() ==> (#[trigger] joined(first, second)[i] == '.'
                <==> (i == ID_PREFIX@.len() || i == ID_PREFIX@.len() + 1 + first.len())),
{
    reveal_strlit("fspy-memfd-v1");
    let prefix = ID_PREFIX@;
    let whole = joined(first, second);
    assert(forall|i: int| 0 <= i < prefix.len() ==> prefix[i] != '.');
    assert forall|i: int| 0 <= i < whole.len() implies (#[trigger] whole[i] == '.' <==> (i
        == prefix.len() || i == prefix.len() + 1 + first.len())) by {
        if i < prefix.len() {
            assert(whole[i] == prefix[i]);
        } else if prefix.len() < i < prefix.len() + 1 + first.len() {
            assert(whole[i] == first[i - prefix.len() - 1]);
        } else if i > prefix.len() + 1 + first.len() {
            assert(whole[i] == second[i - prefix.len() - 2 - first.len()]);
        }
    }
}

/// Reads an identifier back: succeeds exactly on the text of some broker with a name, and gives
/// that broker's name and token.
pub fn decode_id(id: &str) -> (broker: Result<(Vec<u8>, [u8; TOKEN_LEN]), Error>)
    ensures
        match broker {
            Ok((abstract_name, token)) => leads_to(id@, abstract_name@, token@),
            Err(error) => {
                &&& error == Error::InvalidIdentifier
                &&& leads_nowhere(id@)
            },
        },
{
    let (name_text, token_text) = match split_id(id) {
        Some(parts) => parts,
        None => {
            proof {
                assert forall|abstract_name: Seq<u8>, token: Seq<u8>|
                    !leads_to(id@, abstract_name, token) by {
                    lemma_parts_without_dot(abstract_name, token);
                }
            }
            return Err(invalid_id());
        },
    };
    proof {
        assert forall|abstract_name: Seq<u8>, token: Seq<u8>| leads_to(
            id@,
            abstract_name,
            token,
        ) implies base64url::text(abstract_name) == name_text@ && base64url::text(token)
            == token_text@ by {
            lemma_parts_without_dot(abstract_name, token);
            lemma_joined_is_injective(
                base64url::text(abstract_name),
                base64url::text(token),
                name_text@,
                token_text@,
            );
        }
    }
    let abstract_name: Vec<u8> = match base64url::decode(name_text) {
        Ok(bytes) => bytes,
        Err(_) => return Err(invalid_id()),
    };
    if abstract_name.is_empty() {
        proof {
            assert forall|other_name: Seq<u8>, token: Seq<u8>|
                !leads_to(id@, other_name, token) by {
                if leads_to(id@, other_name, token) {
                    base64url::law_text_is_injective(other_name, abstract_name@);
                }
            }
        }
        return Err(invalid_id());
    }
    let token_bytes: Vec<u8> = match base64url::decode(token_text) {
        Ok(bytes) => bytes,
        Err(_) => return Err(invalid_id()),
    };
    if token_bytes.len() != TOKEN_LEN {
        proof {
            assert forall|other_name: Seq<u8>, token: Seq<u8>|
                !leads_to(id@, other_name, token) by {
                if leads_to(id@, other_name, token) {
                    base64url::law_text_is_injective(token, token_bytes@);
                }
            }
        }
        return Err(invalid_id());
    }
    let mut token: [u8; TOKEN_LEN] = [0; TOKEN_LEN];
    let mut i: usize = 0;
    while i < TOKEN_LEN
        invariant
            0 <= i <= TOKEN_LEN,
            token_bytes@.len() == TOKEN_LEN,
            forall|k: int| 0 <= k < i ==> token@[k] == token_bytes@[k],
        decreases TOKEN_LEN - i,
    {
        token[i] = token_bytes[i];
        i += 1;
    }
    assert(token@ =~= token_bytes@);
    Ok((abstract_name, token))
}

/// The two parts of an identifier hold no dot.
proof fn lemma_parts_without_dot(abstract_name: Seq<u8>, token: Seq<u8>)
    ensures
        without_dot(base64url::text(abstract_name)),
        without_dot(base64url::text(token)),
{
    base64url::law_text_is_plain(abstract_name);
    base64url::law_text_is_plain(token);
}

/// Parts without a dot can be told from the text that they are joined to.
proof fn lemma_joined_is_injective(
    first: Seq<char>,
    second: Seq<char>,
    other_first: Seq<char>,
    other_second: Seq<char>,
)
    requires
        without_dot(first),
        without_dot(second),
        without_dot(other_first),
        without_dot(other_second),
        joined(first, second) == joined(other_first, other_second),
    ensures
        first == other_first,
        second == other_second,
{
    let whole = joined(first, second);
    let start = ID_PREFIX@.len() as int + 1;
    lemma_dots_of_joined(first, second);
    lemma_dots_of_joined(other_first, other_second);
    assert(whole[start + first.len()] == '.');
    assert(joined(other_first, other_second)[start + other_first.len()] == '.');
    assert(first.len() == other_first.len());
    assert(whole.subrange(start, start + first.len()) =~= first);
    assert(whole.subrange(start, start + first.len()) =~= other_first);
    assert(whole.subrange(start + first.len() + 1, whole.len() as int) =~= second);
    assert(whole.subrange(start + first.len() + 1, whole.len() as int) =~= other_second);
}

/// An identifier leads back to the broker that it was written for, and to no other: reading what
/// was written gives the name and the token that were written.
pub proof fn law_identifiers_round_trip(
    abstract_name: Seq<u8>,
    token: Seq<u8>,
    read_name: Seq<u8>,
    read_token: Seq<u8>,
)
    requires
        abstract_name.len() > 0,
        token.len() == TOKEN_LEN,
    ensures
        leads_to(identifier(abstract_name, token), abstract_name, token),
        leads_to(identifier(abstract_name, token), read_name, read_token) <==> (read_name
            == abstract_name && read_token == token),
{
    if leads_to(identifier(abstract_name, token), read_name, read_token) {
        law_identifiers_are_unique(abstract_name, token, read_name, read_token);
    }
}

/// Different brokers have different identifiers.
pub proof fn law_identifiers_are_unique(
    abstract_name: Seq<u8>,
    token: Seq<u8>,
    other_name: Seq<u8>,
    other_token: Seq<u8>,
)
    requires
        identifier(abstract_name, token) == identifier(other_name, other_token),
    ensures
        abstract_name == other_name,
        token == other_token,
{
    lemma_parts_without_dot(abstract_name, token);
    lemma_parts_without_dot(other_name, other_token);
    lemma_joined_is_injective(
        base64url::text(abstract_name),
        base64url::text(token),
        base64url::text(other_name),
        base64url::text(other_token),
    );
    base64url::law_text_is_injective(abstract_name, other_name);
    base64url::law_text_is_injective(token, other_token);
}

/// An identifier is ASCII text.
pub proof fn law_identifiers_are_ascii(abstract_name: Seq<u8>, token: Seq<u8>)
    ensures
        vstd::utf8::is_ascii_chars(identifier(abstract_name, token)),
{
    reveal_strlit("fspy-memfd-v1");
    base64url::law_text_is_plain(abstract_name);
    base64url::law_text_is_plain(token);
    let id = identifier(abstract_name, token);
    let prefix = ID_PREFIX@;
    let first = base64url::text(abstract_name);
    let second = base64url::text(token);
    assert forall|i: int| 0 <= i < id.len() implies (#[trigger] id[i] as int) < 128 by {
        if i < prefix.len() {
            assert(id[i] == prefix[i]);
        } else if prefix.len() < i < prefix.len() + 1 + first.len() {
            assert(id[i] == first[i - prefix.len() - 1]);
        } else if i > prefix.len() + 1 + first.len() {
            assert(id[i] == second[i - prefix.len() - 2 - first.len()]);
        }
    }
}

/// How long an identifier is.
proof fn lemma_identifier_len(abstract_name: Seq<u8>, token: Seq<u8>)
    ensures
        identifier(abstract_name, token).len() == ID_PREFIX@.len() + 2 + base64url::text_len(
            abstract_name.len(),
        ) + base64url::text_len(token.len()),
{
}

/// The identifier of a broker with a name of sixteen bytes has 59 characters.
pub(crate) proof fn lemma_broker_identifier_len(abstract_name: Seq<u8>, token: Seq<u8>)
    requires
        abstract_name.len() == 16,
        token.len() == TOKEN_LEN,
    ensures
        identifier(abstract_name, token).len() == 59,
{
    reveal_strlit("fspy-memfd-v1");
    lemma_identifier_len(abstract_name, token);
}

/// A written identifier is the prefix `fspy-memfd-v1`, the text of the name and the text of the
/// token, with a dot before each of the two.  Every name that has an address can be written.
pub proof fn law_written_identifier_is_exact(
    abstract_name: &[u8],
    token: &[u8; TOKEN_LEN],
    id: String,
)
    requires
        call_ensures(encode_id, (abstract_name, token), id),
    ensures
        id@ == "fspy-memfd-v1"@ + seq!['.'] + base64url::text(abstract_name@) + seq!['.']
            + base64url::text(token@),
        abstract_name@.len() <= 107 ==> call_requires(encode_id, (abstract_name, token)),
{
    reveal_strlit("fspy-memfd-v1");
    lemma_identifier_len(abstract_name@, token@);
}

/// Reading gives back what was written: the identifier of every broker with a name, read back, gives
/// the bytes of its name and of its token.  The identifier of a broker without a name is refused.
pub proof fn law_reading_undoes_writing(
    abstract_name: &[u8],
    token: &[u8; TOKEN_LEN],
    id: String,
    text: &str,
    read: Result<(Vec<u8>, [u8; TOKEN_LEN]), Error>,
)
    requires
        call_ensures(encode_id, (abstract_name, token), id),
        text@ == id@,
        call_ensures(decode_id, (text,), read),
    ensures
        abstract_name@.len() > 0 ==> (read matches Ok((read_name, read_token)) && read_name@
            == abstract_name@ && read_token@ == token@),
        abstract_name@.len() == 0 ==> read is Err,
{
    if abstract_name@.len() > 0 {
        assert(leads_to(text@, abstract_name@, token@));
    }
    if let Ok((read_name, read_token)) = read {
        law_identifiers_are_unique(abstract_name@, token@, read_name@, read_token@);
    }
}

/// Writing gives back what was read: a text that is accepted is the only text of its broker, letter
/// for letter, and the broker has a name and sixteen bytes of token.  A text that is not accepted is
/// the identifier of no broker with a name, and is refused as an invalid identifier.
pub proof fn law_writing_undoes_reading(
    text: &str,
    read: Result<(Vec<u8>, [u8; TOKEN_LEN]), Error>,
    abstract_name: &[u8],
    token: &[u8; TOKEN_LEN],
    id: String,
)
    requires
        call_ensures(decode_id, (text,), read),
        call_ensures(encode_id, (abstract_name, token), id),
    ensures
        read matches Ok((read_name, read_token)) ==> read_name@.len() > 0 && read_token@.len() == 16,
        read matches Ok((read_name, read_token)) ==> (id@ == text@ <==> read_name@
            == abstract_name@ && read_token@ == token@),
        read matches Err(error) ==> error == Error::InvalidIdentifier,
        read is Err && abstract_name@.len() > 0 ==> id@ != text@,
{
    if let Ok((read_name, read_token)) = read {
        if id@ == text@ {
            law_identifiers_are_unique(abstract_name@, token@, read_name@, read_token@);
        }
    } else if abstract_name@.len() > 0 {
        assert(!leads_to(text@, abstract_name@, token@));
    }
}

/// A text is split exactly when it is `fspy-memfd-v1` and two parts without a dot, with a dot before
/// each of the two; the parts are then those two, for there are no others.
pub proof fn law_texts_of_three_parts_are_split(
    id: &str,
    parts: Option<(&str, &str)>,
    first: Seq<char>,
    second: Seq<char>,
)
    requires
        call_ensures(split_id, (id,), parts),
    ensures
        id@ == "fspy-memfd-v1"@ + seq!['.'] + first + seq!['.'] + second && !first.contains('.')
            && !second.contains('.') ==> (parts matches Some((read_first, read_second))
            && read_first@ == first && read_second@ == second),
        parts matches Some((read_first, read_second)) ==> id@ == "fspy-memfd-v1"@ + seq!['.']
            + read_first@ + seq!['.'] + read_second@ && !read_first@.contains('.')
            && !read_second@.contains('.'),
{
    if id@ == "fspy-memfd-v1"@ + seq!['.'] + first + seq!['.'] + second && !first.contains('.')
        && !second.contains('.') {
        assert forall|i: int| 0 <= i < first.len() implies first[i] != '.' by {}
        assert forall|i: int| 0 <= i < second.len() implies second[i] != '.' by {}
        assert(without_dot(first) && without_dot(second));
        assert(id@ == joined(first, second));
        if let Some((read_first, read_second)) = parts {
            lemma_joined_is_injective(first, second, read_first@, read_second@);
        }
    }
}

} // verus!
