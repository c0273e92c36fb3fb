//! Request signing: the signing text, its keyed digest, and the headers that
//! carry it.
use vstd::prelude::*;
use vstd::string::StringExecFns;

verus! {

/// The HMAC-SHA384 tag of `msg`'s UTF-8 bytes under the key `key`'s UTF-8
/// bytes.
pub uninterp spec fn hmac_sha384_of(key: Seq<char>, msg: Seq<char>) -> Seq<u8>;

/// Relies on ring::hmac (`Key::new` with `HMAC_SHA384`, then `sign`): the tag
/// is a function of the key and the message alone.
#[verifier::external_body]
fn hmac_sha384(key: &str, msg: &str) -> (r: Vec<u8>)
    ensures
        r@ == hmac_sha384_of(key@, msg@),
{
    let k = ring::hmac::Key::new(ring::hmac::HMAC_SHA384, key.as_bytes());
    ring::hmac::sign(&k, msg.as_bytes()).as_ref().to_vec()
}

/// The lower-case hexadecimal digit of `n`.
pub open spec fn hex_digit(n: nat) -> char {
    seq!['0', '1', '2', '3', '4', '5', '6', '7', '8', '9', 'a', 'b', 'c', 'd', 'e', 'f'][n as int]
}

/// Two lower-case hexadecimal digits per byte, high half first.
pub open spec fn hex_text(b: Seq<u8>) -> Seq<char>
    decreases b.len(),
{
    if b.len() == 0 {
        Seq::empty()
    } else {
        hex_text(b.drop_last()) + seq![hex_digit((b.last() / 16) as nat), hex_digit((b.last() % 16) as nat)]
    }
}

/// Relies on hex::encode: two lower-case digits for each byte, in order.
#[verifier::external_body]
fn hex_encode(b: &Vec<u8>) -> (r: String)
    ensures
        r@ == hex_text(b@),
{
    hex::encode(b)
}

/// The decimal digits of `n`, without leading zeros.
pub open spec fn decimal_text(n: nat) -> Seq<char>
    decreases n,
{
    if n < 10 {
        seq![hex_digit(n)]
    } else {
        decimal_text(n / 10).push(hex_digit(n % 10))
    }
}

fn digit_text(d: u64) -> (r: String)
    requires
        d < 10,
    ensures
        r@ == seq![hex_digit(d as nat)],
{
    let t = if d == 0 {
        "0"
    } else if d == 1 {
        "1"
    } else if d == 2 {
        "2"
    } else if d == 3 {
        "3"
    } else if d == 4 {
        "4"
    } else if d == 5 {
        "5"
    } else if d == 6 {
        "6"
    } else if d == 7 {
        "7"
    } else if d == 8 {
        "8"
    } else {
        "9"
    };
    proof {
        reveal_strlit("0");
        reveal_strlit("1");
        reveal_strlit("2");
        reveal_strlit("3");
        reveal_strlit("4");
        reveal_strlit("5");
        reveal_strlit("6");
        reveal_strlit("7");
        reveal_strlit("8");
        reveal_strlit("9");
    }
    let r = String::from_str(t);
    assert(r@ =~= seq![hex_digit(d as nat)]);
    r
}

/// The decimal digits of `n`.
pub fn u64_text(n: u64) -> (r: String)
    ensures
        r@ == decimal_text(n as nat),
{
    let mut q = n;
    let mut acc = String::new();
    assert(acc@ =~= Seq::<char>::empty());
    assert(decimal_text(n as nat) =~= decimal_text(q as nat) + acc@);
    while q >= 10
        invariant
            decimal_text(n as nat) == decimal_text(q as nat) + acc@,
        decreases q,
    {
        let d = q % 10;
        let mut t = digit_text(d);
        proof {
            assert(decimal_text(q as nat) == decimal_text((q / 10) as nat).push(hex_digit(d as nat)));
            assert(decimal_text(q as nat) + acc@ =~= decimal_text((q / 10) as nat) + (t@ + acc@));
        }
        t.append(acc.as_str());
        acc = t;
        q = q / 10;
    }
    let mut t = digit_text(q);
    t.append(acc.as_str());
    t
}

/// Which authenticated sub-protocol a call goes through.
#[derive(Clone, Copy, Debug, PartialEq, Eq, Structural)]
pub enum OperationKind {
    /// A read-only query.
    Read,
    /// A state-changing command.
    Write,
}

/// The path under which calls of a kind are routed.
pub open spec fn route(kind: OperationKind) -> Seq<char> {
    match kind {
        OperationKind::Read => "v2/auth/r/"@,
        OperationKind::Write => "v2/auth/w/"@,
    }
}

/// The text that is signed: a fixed prefix, the routed path, the nonce in
/// decimal and the body, with nothing between them.
pub open spec fn signing_text(kind: OperationKind, path: Seq<char>, nonce: u64, body: Seq<char>) -> Seq<char> {
    "/api/"@ + route(kind) + path + decimal_text(nonce as nat) + body
}

/// The signature of a request: the hex form of the HMAC-SHA384 tag of its
/// signing text under the secret key.
pub open spec fn signature_of(
    secret: Seq<char>,
    kind: OperationKind,
    path: Seq<char>,
    nonce: u64,
    body: Seq<char>,
) -> Seq<char> {
    hex_text(hmac_sha384_of(secret, signing_text(kind, path, nonce, body)))
}

fn route_text(kind: OperationKind) -> (r: String)
    ensures
        r@ == route(kind),
{
    match kind {
        OperationKind::Read => String::from_str("v2/auth/r/"),
        OperationKind::Write => String::from_str("v2/auth/w/"),
    }
}

/// A request ready for the transport: where it goes, what it carries, and
/// its authentication.
#[derive(Clone, Debug)]
pub struct SignedRequest {
    /// The path below the API's host, with its route.
    pub path: String,
    pub nonce: String,
    pub body: String,
    pub api_key: String,
    pub signature: String,
}

impl SignedRequest {
    /// The authentication headers, by name.
    pub fn headers(&self) -> (r: Vec<(String, String)>)
        ensures
            r@.len() == 4,
            r@[0].0@ == "bfx-nonce"@ && r@[0].1@ == self.nonce@,
            r@[1].0@ == "bfx-apikey"@ && r@[1].1@ == self.api_key@,
            r@[2].0@ == "bfx-signature"@ && r@[2].1@ == self.signature@,
            r@[3].0@ == "content-type"@ && r@[3].1@ == "application/json"@,
    {
        let mut r: Vec<(String, String)> = Vec::new();
        r.push((String::from_str("bfx-nonce"), self.nonce.clone()));
        r.push((String::from_str("bfx-apikey"), self.api_key.clone()));
        r.push((String::from_str("bfx-signature"), self.signature.clone()));
        r.push((String::from_str("content-type"), String::from_str("application/json")));
        r
    }
}

/// Signs a request with the given keys and nonce.
pub fn sign(
    api_key: &str,
    secret_key: &str,
    kind: OperationKind,
    path: &str,
    nonce: u64,
    body: &str,
) -> (r: SignedRequest)
    ensures
        r.path@ == route(kind) + path@,
        r.nonce@ == decimal_text(nonce as nat),
        r.body@ == body@,
        r.api_key@ == api_key@,
        r.signature@ == signature_of(secret_key@, kind, path@, nonce, body@),
{
    let nonce_text = u64_text(nonce);
    let mut text = String::from_str("/api/");
    text.append(route_text(kind).as_str());
    text.append(path);
    text.append(nonce_text.as_str());
    text.append(body);
    let tag = hmac_sha384(secret_key, text.as_str());
    let signature = hex_encode(&tag);
    let full_path = route_text(kind).concat(path);
    SignedRequest {
        path: full_path,
        nonce: nonce_text,
        body: String::from_str(body),
        api_key: String::from_str(api_key),
        signature,
    }
}

} // verus!
