//! Validation and normalization rules for identifiers and user-supplied text.

use vstd::prelude::*;

use crate::model::{CoreError, MAX_MESSAGE_CHARS};
use crate::text::{
    blank, char_is_whitespace, chars_of, contains_whitespace, find_char, has_ws, is_blank, trim,
    trimmed,
};

verus! {

/// Index of the first `c` in `s`, or `s.len()` when there is none.
pub open spec fn first_index(s: Seq<char>, c: char) -> int
    decreases s.len(),
{
    if s.len() == 0 {
        0
    } else if s[0] == c {
        0
    } else {
        1 + first_index(s.drop_first(), c)
    }
}

/// The part of `s` before its first `c` (all of `s` when there is none),
/// which is what `s.split(c).next()` yields.
pub open spec fn before_first(s: Seq<char>, c: char) -> Seq<char> {
    s.take(first_index(s, c))
}

/// `first_index` is the position of the first occurrence, or the length.
pub proof fn lemma_first_index(s: Seq<char>, c: char)
    ensures
        0 <= first_index(s, c) <= s.len(),
        forall|k: int| 0 <= k < first_index(s, c) ==> #[trigger] s[k] != c,
        first_index(s, c) < s.len() ==> s[first_index(s, c)] == c,
    decreases s.len(),
{
    if s.len() > 0 && s[0] != c {
        lemma_first_index(s.drop_first(), c);
        assert forall|k: int| 0 <= k < first_index(s, c) implies #[trigger] s[k] != c by {
            if k > 0 {
                assert(s[k] == s.drop_first()[k - 1]);
            }
        }
    }
}

/// Any index that is the first occurrence (or the length, when absent) is `first_index`.
pub proof fn lemma_first_index_unique(s: Seq<char>, c: char, i: int)
    requires
        0 <= i <= s.len(),
        forall|k: int| 0 <= k < i ==> #[trigger] s[k] != c,
        i < s.len() ==> s[i] == c,
    ensures
        first_index(s, c) == i,
{
    lemma_first_index(s, c);
    let f = first_index(s, c);
    if f < i {
        assert(s[f] != c);
    }
    if i < f {
        assert(s[i] != c);
    }
}

/// Whether `s` is a full `local@domain` address: exactly one `@` with a
/// non-empty part on each side, no whitespace anywhere, and no resource
/// (`/`) in the domain part.
pub open spec fn jid_ok(s: Seq<char>) -> bool {
    exists|p: int| 0 < p < s.len() - 1 && #[trigger] s[p] == '@' && jid_shape(s, p)
}

/// The conditions on a JID whose `@` stands at position `p`.
pub open spec fn jid_shape(s: Seq<char>, p: int) -> bool {
    &&& forall|i: int| 0 <= i < s.len() && i != p ==> #[trigger] s[i] != '@'
    &&& !has_ws(s)
    &&& forall|i: int| p < i < s.len() ==> #[trigger] s[i] != '/'
}

/// Whether `s` is a server hostname: non-empty and free of whitespace.
pub open spec fn server_ok(s: Seq<char>) -> bool {
    !is_blank(s) && !has_ws(s)
}

/// The display name stored for a contact: the trimmed name, or the local
/// part of the JID when the name is blank.
pub open spec fn contact_name(display_name: Seq<char>, jid: Seq<char>) -> Seq<char> {
    if trim(display_name).len() == 0 {
        before_first(jid, '@')
    } else {
        trim(display_name)
    }
}

/// The status stored for a contact: trimmed, with blank statuses dropped.
pub open spec fn status_of(status: Option<Seq<char>>) -> Option<Seq<char>> {
    match status {
        Some(value) => if trim(value).len() == 0 {
            None
        } else {
            Some(trim(value))
        },
        None => None,
    }
}

/// What body validation answers: the trimmed body, or why it is refused.
pub open spec fn body_check(body: Seq<char>) -> Result<Seq<char>, CoreError> {
    if trim(body).len() == 0 {
        Err(CoreError::EmptyMessage)
    } else if trim(body).len() > MAX_MESSAGE_CHARS {
        Err(CoreError::MessageTooLong)
    } else {
        Ok(trim(body))
    }
}

/// The optional string's characters.
pub open spec fn opt_view(value: Option<String>) -> Option<Seq<char>> {
    match value {
        Some(text) => Some(text@),
        None => None,
    }
}

/// Checks that `jid` is a full `local@domain` address.
pub fn validate_jid(jid: &str) -> (r: Result<(), CoreError>)
    ensures
        r is Ok <==> jid_ok(jid@),
        r is Err ==> r == Err::<(), CoreError>(CoreError::InvalidJid),
{
    let v = chars_of(jid);
    let at = find_char(&v, '@', 0);
    let p = match at {
        Some(p) => p,
        None => {
            proof {
                if jid_ok(jid@) {
                    let p = choose|p: int|
                        0 < p < jid@.len() - 1 && #[trigger] jid@[p] == '@' && jid_shape(jid@, p);
                    assert(v@[p] == '@');
                }
            }
            return Err(CoreError::InvalidJid);
        },
    };
    let second = find_char(&v, '@', p + 1);
    let ws = contains_whitespace(jid);
    let slash = find_char(&v, '/', p + 1);
    if p == 0 || p + 1 >= v.len() || second.is_some() || ws || slash.is_some() {
        proof {
            if jid_ok(jid@) {
                let q = choose|q: int|
                    0 < q < jid@.len() - 1 && #[trigger] jid@[q] == '@' && jid_shape(jid@, q);
                assert(v@[q] == '@');
                if q != p {
                    assert(jid@[p as int] == '@');
                }
                assert(q == p);
                match second {
                    Some(k) => {
                        assert(jid@[k as int] == '@');
                    },
                    None => {},
                }
                match slash {
                    Some(k) => {
                        assert(jid@[k as int] == '/');
                    },
                    None => {},
                }
            }
        }
        return Err(CoreError::InvalidJid);
    }
    proof {
        assert forall|i: int| 0 <= i < jid@.len() && i != p implies #[trigger] jid@[i] != '@' by {
            assert(v@[i] == jid@[i]);
        }
        assert(jid@[p as int] == '@');
        assert(jid_shape(jid@, p as int));
    }
    Ok(())
}

/// Checks that `server` is a non-empty hostname without whitespace.
pub fn validate_server(server: &str) -> (r: Result<(), CoreError>)
    ensures
        r is Ok <==> server_ok(server@),
        r is Err ==> r == Err::<(), CoreError>(CoreError::InvalidServer),
{
    if !blank(server) && !contains_whitespace(server) {
        Ok(())
    } else {
        Err(CoreError::InvalidServer)
    }
}

/// Checks that a conversation address is a full `local@domain` address.
pub fn validate_conversation_address(address: &str) -> (r: Result<(), CoreError>)
    ensures
        r is Ok <==> jid_ok(address@),
        r is Err ==> r == Err::<(), CoreError>(CoreError::InvalidConversationAddress),
{
    match validate_jid(address) {
        Ok(()) => Ok(()),
        Err(_) => Err(CoreError::InvalidConversationAddress),
    }
}

/// The part of `s` before its first `c`.
pub fn prefix_before(s: &str, c: char) -> (r: String)
    ensures
        r@ == before_first(s@, c),
{
    let v = chars_of(s);
    let end = match find_char(&v, c, 0) {
        Some(i) => i,
        None => v.len(),
    };
    proof {
        lemma_first_index_unique(s@, c, end as int);
    }
    s.substring_char(0, end).to_owned()
}

/// The stored display name of a contact.
pub fn normalize_contact_name(display_name: &str, jid: &str) -> (r: String)
    ensures
        r@ == contact_name(display_name@, jid@),
{
    let name = trimmed(display_name);
    if name.as_str().unicode_len() == 0 {
        prefix_before(jid, '@')
    } else {
        name
    }
}

/// The stored status of a contact.
pub fn normalize_status(status: Option<String>) -> (r: Option<String>)
    ensures
        opt_view(r) == status_of(opt_view(status)),
{
    match status {
        Some(value) => {
            let text = trimmed(value.as_str());
            if text.as_str().unicode_len() == 0 {
                None
            } else {
                Some(text)
            }
        },
        None => None,
    }
}

/// Trims a message body and checks that it is neither empty nor too long.
pub fn validate_body(body: &str) -> (r: Result<String, CoreError>)
    ensures
        match body_check(body@) {
            Ok(text) => r matches Ok(s) && s@ == text,
            Err(e) => r == Err::<String, CoreError>(e),
        },
{
    let text = trimmed(body);
    let n = text.as_str().unicode_len();
    if n == 0 {
        return Err(CoreError::EmptyMessage);
    }
    if n > MAX_MESSAGE_CHARS {
        return Err(CoreError::MessageTooLong);
    }
    Ok(text)
}

} // verus!
