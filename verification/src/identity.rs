//! Who a request belongs to: credentials, client ids and the namespaces of
//! idempotency keys.

use crate::digest::{digest_text, file_id_fault, hex, text_digest};
use crate::text::{chars_to_string, contains_text, copy, join2, occurs_at, str_eq, to_chars};
use vstd::arithmetic::power::pow;
use vstd::prelude::*;
use vstd::string::*;

verus! {

/// An authenticated caller.
#[derive(Debug)]
pub struct AuthContext {
    pub token_id: String,
    pub owner_id: String,
}

/// Which rule produced a scope value.
pub const SCOPE_DERIVATION_VERSION: u32 = 1;

/// The identity this host authors its own work under.
pub const HOST_AUTHORED_CLIENT_ID: &'static str = "native-executor";

/// The client id that a credential stamps on what it creates.
pub open spec fn client_id_of(token_id: Seq<char>) -> Seq<char> {
    if token_id == "primary"@ {
        "mcp"@
    } else {
        token_id
    }
}

/// The client id that a credential stamps on the runs and receipts it creates.
/// The compatibility credential keeps the wire value `mcp`.
pub fn stamped_client_id(auth: &AuthContext) -> (id: String)
    ensures
        id@ == client_id_of(auth.token_id@),
{
    if str_eq(auth.token_id.as_str(), "primary") {
        copy("mcp")
    } else {
        auth.token_id.clone()
    }
}

/// The namespace that idempotency keys of one client live in.
#[derive(Debug)]
pub struct IdempotencyScope(String);

/// The scope of a client: the first half of a digest over the derivation rule
/// and the client id.
pub open spec fn scope_of(client_id: Seq<char>) -> Seq<char> {
    text_digest("1\u{1f}"@ + client_id).take(32)
}

impl IdempotencyScope {
    pub closed spec fn view(&self) -> Seq<char> {
        self.0@
    }

    /// Width of a scope value.
    pub const WIDTH: usize = 32;

    /// The scope of work that this host authored for itself.
    pub fn host() -> (s: IdempotencyScope)
        ensures
            s@ == scope_of("native-executor"@),
            s@.len() == Self::WIDTH,
    {
        Self::derive("native-executor")
    }

    /// The scope of an authenticated caller.
    pub fn of(auth: &AuthContext) -> (s: IdempotencyScope)
        ensures
            s@ == scope_of(client_id_of(auth.token_id@)),
            s@.len() == Self::WIDTH,
    {
        let id: String = stamped_client_id(auth);
        Self::derive(id.as_str())
    }

    fn derive(client_id: &str) -> (s: IdempotencyScope)
        ensures
            s@ == scope_of(client_id@),
            s@.len() == Self::WIDTH,
    {
        let input: String = join2("1\u{1f}", client_id);
        let digest: String = digest_text(input.as_str());
        let v: Vec<char> = to_chars(digest.as_str());
        proof {
            assert(v@.subrange(0, 32) =~= digest@.take(32));
        }
        IdempotencyScope(chars_to_string(&v, 0, 32))
    }

    /// A scope value read back from a stored receipt.
    pub fn from_stored(value: &str) -> (s: IdempotencyScope)
        ensures
            s@ == value@,
    {
        IdempotencyScope(copy(value))
    }

    pub fn as_str(&self) -> (s: &str)
        ensures
            s@ == self@,
    {
        self.0.as_str()
    }
}

/// The bytes of a UUID, the most significant first.
pub open spec fn uuid_bytes(id: u128) -> Seq<u8> {
    Seq::new(16, |i: int| ((id as int / pow(256, (15 - i) as nat)) % 256) as u8)
}

/// The hyphenated text of a UUID: groups of eight, four, four, four and twelve
/// hexadecimal digits in lower case.
pub open spec fn uuid_display(id: u128) -> Seq<char> {
    let h = hex(uuid_bytes(id));
    h.subrange(0, 8) + "-"@ + h.subrange(8, 12) + "-"@ + h.subrange(12, 16) + "-"@ + h.subrange(
        16,
        20,
    ) + "-"@ + h.subrange(20, 32)
}

/// `uuid::Uuid::from_u128` and its `Display`: the hyphenated lower-case form.
#[verifier::external_body]
fn display_uuid(id: u128) -> (r: String)
    ensures
        r@ == uuid_display(id),
{
    uuid::Uuid::from_u128(id).to_string()
}

/// The hyphenated text of a UUID.
pub fn uuid_text(id: u128) -> (r: String)
    ensures
        r@ == uuid_display(id),
{
    display_uuid(id)
}

/// A random UUID: all of it is chance but its version and variant.
pub open spec fn is_version_four(id: u128) -> bool {
    (id / 0x1000_0000_0000_0000_0000) % 16 == 4 && (id / 0x4000_0000_0000_0000) % 4 == 2
}

/// `uuid::Uuid::new_v4` as a number: chance, but for the four bits that hold the
/// version and the two that hold the variant.
#[verifier::external_body]
fn random_uuid() -> (id: u128)
    ensures
        is_version_four(id),
{
    uuid::Uuid::new_v4().as_u128()
}

/// A random identifier: the text of a random UUID.
pub fn fresh_id() -> (r: String)
    ensures
        exists|id: u128| #[trigger] is_version_four(id) && r@ == uuid_display(id),
{
    let id: u128 = random_uuid();
    display_uuid(id)
}

/// The text of a UUID is made of hexadecimal digits and hyphens, so it can name
/// a file.
pub proof fn uuid_texts_name_files(id: u128)
    ensures
        uuid_display(id).len() == 36,
        file_id_fault(uuid_display(id)) is None,
{
    let s = uuid_display(id);
    let h = hex(uuid_bytes(id));
    reveal_strlit("-");
    reveal_strlit("..");
    assert(h.len() == 32);
    assert forall|i: int| 0 <= i < h.len() implies is_hex_or_hyphen(#[trigger] h[i]) by {
        let b = uuid_bytes(id)[i / 2] as int;
        assert(0 <= b / 16 < 16 && 0 <= b % 16 < 16);
    }
    assert forall|i: int| 0 <= i < s.len() implies is_hex_or_hyphen(#[trigger] s[i]) by {
        if i < 8 {
            assert(s[i] == h[i]);
        } else if i == 8 || i == 13 || i == 18 || i == 23 {
            assert(s[i] == '-');
        } else if i < 13 {
            assert(s[i] == h[i - 1]);
        } else if i < 18 {
            assert(s[i] == h[i - 2]);
        } else if i < 23 {
            assert(s[i] == h[i - 3]);
        } else {
            assert(s[i] == h[i - 4]);
        }
    }
    assert(vstd::utf8::is_ascii_chars(s));
    vstd::utf8::is_ascii_chars_encode_utf8(s);
    if contains_text(s, ".."@) {
        let i = choose|i: int| occurs_at(s, ".."@, i);
        assert(s.subrange(i, i + 2)[0] == '.');
        assert(is_hex_or_hyphen(s[i]));
    }
}

/// A lower-case hexadecimal digit, or a hyphen.
pub open spec fn is_hex_or_hyphen(c: char) -> bool {
    '0' <= c && c <= '9' || 'a' <= c && c <= 'f' || c == '-'
}

} // verus!
