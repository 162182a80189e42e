//! The address codec: a socket path written as the host of a `unix://` URI,
//! and read back from one.

use crate::base16::{
    from_hex, hex_decode, hex_encode, is_hex_digit, is_hex_text, lemma_hex_round_trip, to_hex,
};
use vstd::prelude::*;
use vstd::std_specs::iter::IteratorSpec;
use vstd::string::*;

verus! {

/// Why an address does not name a socket path.
#[derive(Clone, Copy, Debug, PartialEq, Eq, Structural)]
pub enum DecodeError {
    /// The scheme is missing or is not `unix`.
    SchemeMismatch,
    /// The host is missing, is not hex text, or stands for the empty path.
    MalformedHost,
}

/// The scheme that marks an address as a socket path: `unix`.
pub open spec fn scheme_text() -> Seq<char> {
    seq!['u', 'n', 'i', 'x']
}

/// The text before the host of a socket address: `unix://`.
pub open spec fn address_prefix() -> Seq<char> {
    scheme_text() + seq![':', '/', '/']
}

/// The address that stands for `socket` and `request`:
/// `unix://<hex of socket>:0<request>`. The port is a placeholder.
pub open spec fn encoded_address(socket: Seq<u8>, request: Seq<char>) -> Seq<char> {
    address_prefix() + hex_encode(socket) + seq![':', '0'] + request
}

/// The socket path that a scheme and a host stand for. The scheme must be
/// `unix` whatever the host is; the host must then be hex text of a
/// non-empty path.
pub open spec fn socket_path(scheme: Option<Seq<char>>, host: Option<Seq<char>>) -> Result<
    Seq<u8>,
    DecodeError,
> {
    if scheme != Some(scheme_text()) {
        Err(DecodeError::SchemeMismatch)
    } else {
        match host {
            Some(h) if is_hex_text(h) && h.len() > 0 => Ok(hex_decode(h)),
            _ => Err(DecodeError::MalformedHost),
        }
    }
}

/// The characters of an optional string slice.
pub open spec fn text_of(part: Option<&str>) -> Option<Seq<char>> {
    match part {
        Some(s) => Some(s@),
        None => None,
    }
}

/// The bytes of a decoded path, or the error unchanged.
pub open spec fn path_of(decoded: Result<Vec<u8>, DecodeError>) -> Result<Seq<u8>, DecodeError> {
    match decoded {
        Ok(bytes) => Ok(bytes@),
        Err(e) => Err(e),
    }
}

/// Whether two string slices hold the same characters.
fn same_text(a: &str, b: &str) -> (same: bool)
    ensures
        same == (a@ == b@),
{
    let x = String::from_str(a);
    let y = String::from_str(b);
    x == y
}

/// Decodes the socket path out of the scheme and host of an address.
pub fn decode_parts(scheme: Option<&str>, host: Option<&str>) -> (decoded: Result<
    Vec<u8>,
    DecodeError,
>)
    ensures
        path_of(decoded) == socket_path(text_of(scheme), text_of(host)),
{
    proof {
        reveal_strlit("unix");
    }
    let scheme_ok = match scheme {
        Some(s) => same_text(s, "unix"),
        None => false,
    };
    assert("unix"@ =~= scheme_text());
    if !scheme_ok {
        return Err(DecodeError::SchemeMismatch);
    }
    match host {
        Some(h) => match from_hex(h) {
            Ok(bytes) => if bytes.len() > 0 {
                Ok(bytes)
            } else {
                Err(DecodeError::MalformedHost)
            },
            Err(_) => Err(DecodeError::MalformedHost),
        },
        None => Err(DecodeError::MalformedHost),
    }
}

/// Whether `c` ends the host of an address: the colon before the port, or
/// the start of the path, the query or the fragment.
pub open spec fn is_host_end(c: char) -> bool {
    c == ':' || c == '/' || c == '?' || c == '#'
}

/// How many leading characters of `rest` come before the first character
/// that ends a host; all of them where there is none.
pub open spec fn host_len(rest: Seq<char>) -> nat
    decreases rest.len(),
{
    if rest.len() == 0 || is_host_end(rest[0]) {
        0
    } else {
        1 + host_len(rest.drop_first())
    }
}

/// Whether `address` opens with `unix://`.
pub open spec fn has_unix_scheme(address: Seq<char>) -> bool {
    address.len() >= 7 && address.take(7) == address_prefix()
}

/// The host of an address that opens with `unix://`: what follows the
/// prefix, up to the first character that ends a host.
pub open spec fn address_host(address: Seq<char>) -> Seq<char> {
    address.skip(7).take(host_len(address.skip(7)) as int)
}

/// The socket path that the text of an address stands for.
pub open spec fn decoded_path(address: Seq<char>) -> Result<Seq<u8>, DecodeError> {
    if has_unix_scheme(address) {
        socket_path(Some(scheme_text()), Some(address_host(address)))
    } else {
        Err(DecodeError::SchemeMismatch)
    }
}

/// `host_len` stops at the first character that ends a host and not before.
pub proof fn lemma_host_len(rest: Seq<char>)
    ensures
        host_len(rest) <= rest.len(),
        forall|i: int| 0 <= i < host_len(rest) ==> !is_host_end(#[trigger] rest[i]),
        host_len(rest) < rest.len() ==> is_host_end(rest[host_len(rest) as int]),
    decreases rest.len(),
{
    if rest.len() != 0 && !is_host_end(rest[0]) {
        let tail = rest.drop_first();
        lemma_host_len(tail);
        assert forall|i: int| 0 <= i < host_len(rest) implies !is_host_end(#[trigger] rest[i]) by {
            if i > 0 {
                assert(rest[i] == tail[i - 1]);
            }
        }
        if host_len(rest) < rest.len() {
            assert(rest[host_len(rest) as int] == tail[host_len(tail) as int]);
        }
    }
}

/// A count with the two properties of `host_len` is `host_len`.
pub proof fn lemma_host_len_unique(rest: Seq<char>, n: int)
    requires
        0 <= n <= rest.len(),
        forall|i: int| 0 <= i < n ==> !is_host_end(#[trigger] rest[i]),
        n < rest.len() ==> is_host_end(rest[n]),
    ensures
        host_len(rest) == n,
    decreases rest.len(),
{
    if n == 0 {
    } else {
        let tail = rest.drop_first();
        assert(!is_host_end(rest[0]));
        assert forall|i: int| 0 <= i < n - 1 implies !is_host_end(#[trigger] tail[i]) by {
            assert(tail[i] == rest[i + 1]);
        }
        if n - 1 < tail.len() {
            assert(tail[n - 1] == rest[n]);
        }
        lemma_host_len_unique(tail, n - 1);
    }
}

/// A hex digit never ends a host.
pub proof fn lemma_hex_digit_is_no_host_end(c: char)
    requires
        is_hex_digit(c),
    ensures
        !is_host_end(c),
{
}

/// Round trip: the address of a non-empty socket path, with any request
/// path, decodes to that socket path, byte for byte.
pub proof fn lemma_decode_encode(socket: Seq<u8>, request: Seq<char>)
    requires
        socket.len() > 0,
    ensures
        decoded_path(encoded_address(socket, request)) == Ok::<Seq<u8>, DecodeError>(socket),
        socket_path(Some(scheme_text()), Some(hex_encode(socket))) == Ok::<Seq<u8>, DecodeError>(
            socket,
        ),
{
    let address = encoded_address(socket, request);
    let host = hex_encode(socket);
    let rest = address.skip(7);
    lemma_hex_round_trip(socket);
    assert(address.take(7) =~= address_prefix());
    assert(rest =~= host + seq![':', '0'] + request);
    assert forall|i: int| 0 <= i < host.len() implies !is_host_end(#[trigger] rest[i]) by {
        assert(rest[i] == host[i]);
        lemma_hex_digit_is_no_host_end(host[i]);
    }
    assert(rest[host.len() as int] == ':');
    lemma_host_len_unique(rest, host.len() as int);
    assert(address_host(address) =~= host);
}

/// An address is rejected for its scheme alone: where the scheme is not
/// `unix`, decoding gives `SchemeMismatch` for every host.
pub proof fn lemma_wrong_scheme_rejected(scheme: Option<Seq<char>>, host: Option<Seq<char>>)
    requires
        scheme != Some(scheme_text()),
    ensures
        socket_path(scheme, host) == Err::<Seq<u8>, DecodeError>(DecodeError::SchemeMismatch),
{
}

/// Text that does not open with `unix://` is rejected for its scheme,
/// whatever else it holds.
pub proof fn lemma_wrong_prefix_rejected(address: Seq<char>)
    requires
        !has_unix_scheme(address),
    ensures
        decoded_path(address) == Err::<Seq<u8>, DecodeError>(DecodeError::SchemeMismatch),
{
}

/// Under the `unix` scheme a host that is not hex text is never decoded:
/// the result is `MalformedHost`.
pub proof fn lemma_non_hex_host_rejected(host: Seq<char>)
    requires
        !is_hex_text(host),
    ensures
        socket_path(Some(scheme_text()), Some(host)) == Err::<Seq<u8>, DecodeError>(
            DecodeError::MalformedHost,
        ),
{
}

/// The same for the text of an address: with the `unix://` prefix and a
/// host that is not hex text, the result is `MalformedHost`.
pub proof fn lemma_non_hex_address_rejected(address: Seq<char>)
    requires
        has_unix_scheme(address),
        !is_hex_text(address_host(address)),
    ensures
        decoded_path(address) == Err::<Seq<u8>, DecodeError>(DecodeError::MalformedHost),
{
}

/// Two socket paths with the same address text are the same path.
pub proof fn lemma_encode_injective(a: Seq<u8>, b: Seq<u8>, request: Seq<char>)
    requires
        encoded_address(a, request) == encoded_address(b, request),
    ensures
        a == b,
{
    let x = encoded_address(a, request);
    let y = encoded_address(b, request);
    lemma_hex_round_trip(a);
    lemma_hex_round_trip(b);
    assert(x.len() == 9 + 2 * a.len() + request.len());
    assert(y.len() == 9 + 2 * b.len() + request.len());
    assert(hex_encode(a) =~= x.subrange(7, 7 + 2 * a.len() as int));
    assert(hex_encode(b) =~= y.subrange(7, 7 + 2 * b.len() as int));
}

/// Counts the characters of `rest` that come before the first one that
/// ends a host.
fn host_length(rest: &str) -> (len: usize)
    ensures
        len == host_len(rest@),
        len <= rest@.len(),
{
    let total = rest.unicode_len();
    let mut chars = rest.chars();
    let mut len: usize = 0;
    proof {
        axiom_spec_iter(rest);
        assert(rest@.skip(0) =~= rest@);
    }
    while len < total
        invariant
            len <= total,
            total == rest@.len(),
            chars.remaining() == rest@.skip(len as int),
            forall|i: int| 0 <= i < len ==> !is_host_end(#[trigger] rest@[i]),
        decreases total - len,
    {
        let ghost before = chars;
        let next = chars.next();
        proof {
            next_postcondition(&before, &chars, next);
            assert(rest@.skip(len as int).drop_first() =~= rest@.skip(len as int + 1));
        }
        match next {
            Some(c) => {
                if c == ':' || c == '/' || c == '?' || c == '#' {
                    proof {
                        lemma_host_len_unique(rest@, len as int);
                    }
                    return len;
                }
                len = len + 1;
            },
            None => {
                proof {
                    lemma_host_len_unique(rest@, len as int);
                }
                return len;
            },
        }
    }
    proof {
        lemma_host_len_unique(rest@, len as int);
    }
    len
}

/// Decodes the socket path out of the text of an address.
///
/// The text must open with `unix://`, else the scheme is mismatched
/// whatever follows. The host runs from there to the first `:`, `/`, `?`
/// or `#` and must be hex text of a non-empty path: a host name, or a user
/// name before the host, makes it malformed.
pub fn decode(address: &str) -> (decoded: Result<Vec<u8>, DecodeError>)
    ensures
        path_of(decoded) == decoded_path(address@),
{
    proof {
        reveal_strlit("unix://");
        reveal_strlit("unix");
    }
    let total = address.unicode_len();
    if total < 7 {
        return Err(DecodeError::SchemeMismatch);
    }
    let prefix = address.substring_char(0, 7);
    assert(address@.subrange(0, 7) =~= address@.take(7));
    assert("unix://"@ =~= address_prefix());
    if !same_text(prefix, "unix://") {
        return Err(DecodeError::SchemeMismatch);
    }
    let rest = address.substring_char(7, total);
    assert(address@.subrange(7, total as int) =~= address@.skip(7));
    let len = host_length(rest);
    let host = rest.substring_char(0, len);
    assert(rest@.subrange(0, len as int) =~= address_host(address@));
    assert("unix"@ =~= scheme_text());
    decode_parts(Some("unix"), Some(host))
}

/// An address that stands for a socket path and a request path, as text.
#[derive(Debug)]
pub struct Uri {
    address: String,
}

impl View for Uri {
    type V = Seq<char>;

    closed spec fn view(&self) -> Seq<char> {
        self.address@
    }
}

impl Uri {
    /// The address of `path` on the socket at `socket`:
    /// `unix://<hex of socket>:0<path>`. It decodes to `socket` again,
    /// unless `socket` is empty and so names no socket.
    pub fn new(socket: &[u8], path: &str) -> (uri: Uri)
        ensures
            uri@ == encoded_address(socket@, path@),
            socket@.len() > 0 ==> decoded_path(uri@) == Ok::<Seq<u8>, DecodeError>(socket@),
    {
        let host = to_hex(socket);
        let mut address = String::from_str("unix://");
        address.append(host.as_str());
        address.append(":0");
        address.append(path);
        proof {
            reveal_strlit("unix://");
            reveal_strlit(":0");
            assert("unix://"@ =~= address_prefix());
            assert(":0"@ =~= seq![':', '0']);
            if socket@.len() > 0 {
                lemma_decode_encode(socket@, path@);
            }
        }
        Uri { address }
    }

    /// The text of the address.
    pub fn as_str(&self) -> (text: &str)
        ensures
            text@ == self@,
    {
        self.address.as_str()
    }

    /// The text of the address, owned.
    pub fn into_string(self) -> (text: String)
        ensures
            text@ == self@,
    {
        self.address
    }

    /// The socket path that this address stands for.
    pub fn socket_path(&self) -> (decoded: Result<Vec<u8>, DecodeError>)
        ensures
            path_of(decoded) == decoded_path(self@),
    {
        decode(self.address.as_str())
    }
}

} // verus!
