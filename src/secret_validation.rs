//! Request authentication: a keyed SHA-256 MAC over the raw body, compared with
//! a hex signature that the sender put in one of a few known headers.

use hmac::{Hmac, Mac};
use sha2::Sha256;
use vstd::prelude::*;

verus! {

/// A request header: its name and its raw value.
pub type Header = (String, Vec<u8>);

/// The supported signature formats.
#[derive(Clone, Copy, Debug, PartialEq, Eq, Structural)]
pub enum SecretFormat {
    HMac,
}

impl SecretFormat {
    /// The validator that checks signatures of this format.
    pub fn validator(&self) -> (r: HMacSecretValidator)
        ensures
            *self == SecretFormat::HMac ==> r == HMacSecretValidator,
    {
        match self {
            SecretFormat::HMac => HMacSecretValidator,
        }
    }
}

/// A way of deciding whether a request was signed with the shared secret.
pub trait SecretValidator {
    /// Whether a request with these headers and body carries a valid
    /// signature for `secret`.
    spec fn accepts(&self, headers: Seq<Header>, body: Seq<u8>, secret: Seq<u8>) -> bool;

    fn validate(&self, headers: &Vec<Header>, body: &[u8], secret: &[u8]) -> (r: bool)
        ensures
            r == self.accepts(headers@, body@, secret@),
    ;
}

/// The HMAC-SHA256 tag of `message` under `key`.
pub uninterp spec fn hmac_sha256(key: Seq<u8>, message: Seq<u8>) -> Seq<u8>;

/// Relies on hmac's `Hmac<Sha256>`: `new_from_slice` takes a key of any length,
/// and `verify_slice` accepts exactly the full tag, compared in constant time.
#[verifier::external_body]
fn hmac_sha256_verify(key: &[u8], message: &[u8], tag: &[u8]) -> (r: bool)
    ensures
        r == (tag@ == hmac_sha256(key@, message@)),
{
    let Ok(mut mac) = <Hmac<Sha256> as Mac>::new_from_slice(key) else {
        return false;
    };
    mac.update(message);
    mac.verify_slice(tag).is_ok()
}

pub open spec fn is_hex_digit(b: u8) -> bool {
    (48 <= b <= 57) || (65 <= b <= 70) || (97 <= b <= 102)
}

pub open spec fn hex_value(b: u8) -> int {
    if 48 <= b <= 57 {
        b - 48
    } else if 65 <= b <= 70 {
        b - 55
    } else {
        b - 87
    }
}

/// Text that decodes as hex: an even number of hex digits, either case.
pub open spec fn hex_decodable(text: Seq<u8>) -> bool {
    text.len() % 2 == 0 && forall|i: int| 0 <= i < text.len() ==> is_hex_digit(#[trigger] text[i])
}

/// The bytes that hex text stands for, two digits each, high digit first.
pub open spec fn hex_decode(text: Seq<u8>) -> Seq<u8> {
    Seq::new(
        text.len() / 2,
        |i: int| (hex_value(text[2 * i]) * 16 + hex_value(text[2 * i + 1])) as u8,
    )
}

/// Relies on hex::decode: it fails on odd length or on a byte that is no hex
/// digit, and otherwise turns each pair of digits into one byte.
#[verifier::external_body]
fn decode_hex(text: &[u8]) -> (r: Option<Vec<u8>>)
    ensures
        r is Some <==> hex_decodable(text@),
        r matches Some(bytes) ==> bytes@ == hex_decode(text@),
{
    hex::decode(text).ok()
}

/// ASCII case folding, as header names are compared.
pub open spec fn fold_case(c: char) -> u32 {
    if 'A' <= c <= 'Z' {
        (c as u32 + 32) as u32
    } else {
        c as u32
    }
}

pub open spec fn eq_ignore_case(a: Seq<char>, b: Seq<char>) -> bool {
    a.len() == b.len() && forall|i: int| 0 <= i < a.len() ==> fold_case(#[trigger] a[i]) == fold_case(b[i])
}

fn eq_ignore_case_exec(a: &str, b: &str) -> (r: bool)
    ensures
        r == eq_ignore_case(a@, b@),
{
    let n = a.unicode_len();
    if n != b.unicode_len() {
        return false;
    }
    let mut i: usize = 0;
    while i < n
        invariant
            n == a@.len(),
            n == b@.len(),
            i <= n,
            forall|j: int| 0 <= j < i ==> fold_case(#[trigger] a@[j]) == fold_case(b@[j]),
        decreases n - i,
    {
        let x = a.get_char(i);
        let y = b.get_char(i);
        let fx: u32 = if 'A' <= x && x <= 'Z' { x as u32 + 32 } else { x as u32 };
        let fy: u32 = if 'A' <= y && y <= 'Z' { y as u32 + 32 } else { y as u32 };
        if fx != fy {
            return false;
        }
        i = i + 1;
    }
    true
}

/// The headers in which senders put their body signature.
pub open spec fn is_signature_header(name: Seq<char>) -> bool {
    ||| eq_ignore_case(name, "X-Forgejo-Signature"@)
    ||| eq_ignore_case(name, "X-Gitea-Signature"@)
    ||| eq_ignore_case(name, "X-Gogs-Signature"@)
    ||| eq_ignore_case(name, "X-Hub-Signature-256"@)
}

fn is_signature_header_exec(name: &str) -> (r: bool)
    ensures
        r == is_signature_header(name@),
{
    eq_ignore_case_exec(name, "X-Forgejo-Signature") || eq_ignore_case_exec(name, "X-Gitea-Signature")
        || eq_ignore_case_exec(name, "X-Gogs-Signature") || eq_ignore_case_exec(
        name,
        "X-Hub-Signature-256",
    )
}

/// The value of the first header, in order, whose name satisfies `wanted`.
pub open spec fn first_header(headers: Seq<Header>, wanted: spec_fn(Seq<char>) -> bool) -> Option<
    Seq<u8>,
>
    decreases headers.len(),
{
    if headers.len() == 0 {
        None
    } else if wanted(headers[0].0@) {
        Some(headers[0].1@)
    } else {
        first_header(headers.drop_first(), wanted)
    }
}

/// A header value that reads as text: visible ASCII and tabs only.
pub open spec fn is_visible_text(v: Seq<u8>) -> bool {
    forall|i: int| 0 <= i < v.len() ==> (32 <= #[trigger] v[i] < 127 || v[i] == 9)
}

/// The algorithm tag that may precede a signature.
pub open spec fn sha256_tag() -> Seq<u8> {
    seq![115u8, 104u8, 97u8, 50u8, 53u8, 54u8, 61u8]
}

/// `v` without any number of leading algorithm tags.
pub open spec fn strip_tags(v: Seq<u8>) -> Seq<u8>
    decreases v.len(),
{
    if v.len() >= 7 && v.take(7) == sha256_tag() {
        strip_tags(v.skip(7))
    } else {
        v
    }
}

/// A validator for the signature headers of GitHub, Gitea, Gogs and Forgejo:
/// hex HMAC-SHA256 of the body, with an optional `sha256=` tag.
#[derive(Clone, Copy, Debug, PartialEq, Eq, Structural)]
pub struct HMacSecretValidator;

/// Whether `value`, read as a signature, is the body's tag under `secret`.
pub open spec fn hmac_signature_matches(value: Seq<u8>, body: Seq<u8>, secret: Seq<u8>) -> bool {
    &&& is_visible_text(value)
    &&& hex_decodable(strip_tags(value))
    &&& hex_decode(strip_tags(value)) == hmac_sha256(secret, body)
}

impl SecretValidator for HMacSecretValidator {
    open spec fn accepts(&self, headers: Seq<Header>, body: Seq<u8>, secret: Seq<u8>) -> bool {
        match first_header(headers, |n: Seq<char>| is_signature_header(n)) {
            Some(value) => hmac_signature_matches(value, body, secret),
            None => false,
        }
    }

    fn validate(&self, headers: &Vec<Header>, body: &[u8], secret: &[u8]) -> (r: bool) {
        let found = find_header(headers, true);
        match found {
            None => false,
            Some(i) => {
                let value = &headers[i].1;
                if !visible_text(value) {
                    return false;
                }
                let sum = strip_tags_exec(value);
                match decode_hex(sum.as_slice()) {
                    None => false,
                    Some(decoded) => hmac_sha256_verify(secret, body, decoded.as_slice()),
                }
            },
        }
    }
}

/// A validator for GitHub's `X-Hub-Signature-256` header alone: the hex
/// HMAC-SHA256 of the body, with an optional `sha256=` tag.
#[derive(Clone, Copy, Debug, PartialEq, Eq, Structural)]
pub struct GithubSecretValidator;

pub open spec fn is_github_header(name: Seq<char>) -> bool {
    eq_ignore_case(name, "X-Hub-Signature-256"@)
}

impl SecretValidator for GithubSecretValidator {
    open spec fn accepts(&self, headers: Seq<Header>, body: Seq<u8>, secret: Seq<u8>) -> bool {
        match first_header(headers, |n: Seq<char>| is_github_header(n)) {
            Some(value) => hex_decodable(strip_tags(value)) && hex_decode(strip_tags(value))
                == hmac_sha256(secret, body),
            None => false,
        }
    }

    fn validate(&self, headers: &Vec<Header>, body: &[u8], secret: &[u8]) -> (r: bool) {
        match find_header(headers, false) {
            None => false,
            Some(i) => {
                let sum = strip_tags_exec(&headers[i].1);
                match decode_hex(sum.as_slice()) {
                    None => false,
                    Some(decoded) => hmac_sha256_verify(secret, body, decoded.as_slice()),
                }
            },
        }
    }
}

pub open spec fn header_wanted(any_vendor: bool) -> spec_fn(Seq<char>) -> bool {
    if any_vendor {
        |n: Seq<char>| is_signature_header(n)
    } else {
        |n: Seq<char>| is_github_header(n)
    }
}

proof fn lemma_first_header_skip(headers: Seq<Header>, wanted: spec_fn(Seq<char>) -> bool, i: int)
    requires
        0 <= i < headers.len(),
        forall|j: int| 0 <= j < i ==> !wanted(#[trigger] headers[j].0@),
    ensures
        first_header(headers, wanted) == first_header(headers.skip(i), wanted),
    decreases i,
{
    if i > 0 {
        assert(!wanted(headers[0].0@));
        assert forall|j: int| 0 <= j < i - 1 implies !wanted(#[trigger] headers.drop_first()[j].0@) by {
            assert(headers.drop_first()[j] == headers[j + 1]);
        }
        lemma_first_header_skip(headers.drop_first(), wanted, i - 1);
        assert(headers.drop_first().skip(i - 1) =~= headers.skip(i));
    } else {
        assert(headers.skip(0) =~= headers);
    }
}

/// The index of the first header that `header_wanted(any_vendor)` picks.
fn find_header(headers: &Vec<Header>, any_vendor: bool) -> (r: Option<usize>)
    ensures
        match r {
            Some(i) => i < headers.len() && first_header(headers@, header_wanted(any_vendor)) == Some(
                headers@[i as int].1@,
            ),
            None => first_header(headers@, header_wanted(any_vendor)) is None,
        },
{
    let ghost wanted = header_wanted(any_vendor);
    let mut i: usize = 0;
    while i < headers.len()
        invariant
            i <= headers.len(),
            wanted == header_wanted(any_vendor),
            forall|j: int| 0 <= j < i ==> !wanted(#[trigger] headers@[j].0@),
        decreases headers.len() - i,
    {
        let name = headers[i].0.as_str();
        let hit = if any_vendor {
            is_signature_header_exec(name)
        } else {
            eq_ignore_case_exec(name, "X-Hub-Signature-256")
        };
        if hit {
            proof {
                lemma_first_header_skip(headers@, wanted, i as int);
            }
            return Some(i);
        }
        i = i + 1;
    }
    proof {
        assert forall|k: int| 0 <= k <= headers@.len() implies first_header(headers@.skip(k), wanted)
            is None by {
            lemma_first_header_none(headers@, wanted, k);
        }
        assert(headers@.skip(0) =~= headers@);
    }
    None
}

proof fn lemma_first_header_none(headers: Seq<Header>, wanted: spec_fn(Seq<char>) -> bool, k: int)
    requires
        0 <= k <= headers.len(),
        forall|j: int| 0 <= j < headers.len() ==> !wanted(#[trigger] headers[j].0@),
    ensures
        first_header(headers.skip(k), wanted) is None,
    decreases headers.len() - k,
{
    if k < headers.len() {
        lemma_first_header_none(headers, wanted, k + 1);
        assert(headers.skip(k).drop_first() =~= headers.skip(k + 1));
    }
}

fn visible_text(v: &Vec<u8>) -> (r: bool)
    ensures
        r == is_visible_text(v@),
{
    let mut i: usize = 0;
    while i < v.len()
        invariant
            i <= v.len(),
            forall|j: int| 0 <= j < i ==> (32 <= #[trigger] v@[j] < 127 || v@[j] == 9),
        decreases v.len() - i,
    {
        let b = v[i];
        if !((32 <= b && b < 127) || b == 9) {
            return false;
        }
        i = i + 1;
    }
    true
}

fn tag_at(v: &Vec<u8>, i: usize) -> (r: bool)
    requires
        i <= v.len(),
    ensures
        r == (v@.skip(i as int).len() >= 7 && v@.skip(i as int).take(7) == sha256_tag()),
{
    if v.len() - i < 7 {
        return false;
    }
    let r = v[i] == 115 && v[i + 1] == 104 && v[i + 2] == 97 && v[i + 3] == 50 && v[i + 4] == 53
        && v[i + 5] == 54 && v[i + 6] == 61;
    assert(r == (v@.skip(i as int).take(7) =~= sha256_tag()));
    r
}

/// `v` without its leading algorithm tags.
fn strip_tags_exec(v: &Vec<u8>) -> (r: Vec<u8>)
    ensures
        r@ == strip_tags(v@),
{
    let mut i: usize = 0;
    assert(v@.skip(0) =~= v@);
    while tag_at(v, i)
        invariant
            i <= v.len(),
            strip_tags(v@) == strip_tags(v@.skip(i as int)),
        decreases v.len() - i,
    {
        assert(v@.skip(i as int).skip(7) =~= v@.skip(i + 7));
        i = i + 7;
    }
    let mut r: Vec<u8> = Vec::new();
    let mut k: usize = i;
    while k < v.len()
        invariant
            i <= k <= v.len(),
            r@ == v@.subrange(i as int, k as int),
        decreases v.len() - k,
    {
        r.push(v[k]);
        assert(v@.subrange(i as int, k + 1) =~= v@.subrange(i as int, k as int).push(v@[k as int]));
        k = k + 1;
    }
    assert(v@.subrange(i as int, v.len() as int) =~= v@.skip(i as int));
    r
}

/// A request is accepted when its first signature header holds the body's
/// HMAC-SHA256 under the secret in hex, with or without the `sha256=` tag.
pub proof fn lemma_signed_request_accepted(
    headers: Seq<Header>,
    body: Seq<u8>,
    secret: Seq<u8>,
    digits: Seq<u8>,
    tagged: bool,
)
    requires
        headers.len() > 0,
        is_signature_header(headers[0].0@),
        hex_decodable(digits),
        hex_decode(digits) == hmac_sha256(secret, body),
        headers[0].1@ == if tagged {
            sha256_tag() + digits
        } else {
            digits
        },
    ensures
        HMacSecretValidator.accepts(headers, body, secret),
{
    let v = headers[0].1@;
    if digits.len() >= 7 {
        assert(!is_hex_digit(115u8));
        assert(digits.take(7) != sha256_tag()) by {
            assert(is_hex_digit(digits[0]));
            if digits.take(7) == sha256_tag() {
                assert(digits.take(7)[0] == 115u8);
            }
        }
    }
    assert(strip_tags(digits) == digits);
    if tagged {
        assert(v.take(7) =~= sha256_tag());
        assert(v.skip(7) =~= digits);
    }
    assert(strip_tags(v) == digits);
    assert forall|i: int| 0 <= i < v.len() implies (32 <= #[trigger] v[i] < 127 || v[i] == 9) by {
        if tagged && i < 7 {
            assert(v[i] == sha256_tag()[i]);
        } else if tagged {
            assert(v[i] == digits[i - 7]);
            assert(is_hex_digit(digits[i - 7]));
        } else {
            assert(is_hex_digit(digits[i]));
        }
    }
}

/// A request with none of the signature headers is rejected.
pub proof fn lemma_unsigned_request_rejected(headers: Seq<Header>, body: Seq<u8>, secret: Seq<u8>)
    requires
        forall|i: int| 0 <= i < headers.len() ==> !is_signature_header(#[trigger] headers[i].0@),
    ensures
        !HMacSecretValidator.accepts(headers, body, secret),
    decreases headers.len(),
{
    if headers.len() > 0 {
        assert forall|i: int| 0 <= i < headers.drop_first().len() implies !is_signature_header(
            #[trigger] headers.drop_first()[i].0@,
        ) by {
            assert(headers.drop_first()[i] == headers[i + 1]);
        }
        lemma_unsigned_request_rejected(headers.drop_first(), body, secret);
        assert(!is_signature_header(headers[0].0@));
    }
}

} // verus!
