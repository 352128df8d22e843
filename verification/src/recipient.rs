//! Client addressing for the mix network: a recipient is the client's
//! identity key, its encryption key and the identity of its gateway, carried
//! as raw key bytes and written `identity.encryption@gateway` in base58.

use crate::ext::{bs58_decoded, bs58_encoded};
use vstd::prelude::*;
use vstd::string::StrSliceExecFns;
use vstd::string::StringExecFns;

verus! {

pub const CLIENT_IDENTITY_SIZE: usize = 32;

pub const CLIENT_ENCRYPTION_KEY_SIZE: usize = 32;

pub const NODE_IDENTITY_SIZE: usize = 32;

/// The byte length of a recipient: its three keys, back to back.
pub const RECIPIENT_LEN: usize = 96;

/// Why an address failed to parse.
#[derive(Clone, Copy, PartialEq, Eq, Structural, Debug)]
pub enum RecipientFormattingError {
    MalformedRecipientError,
    MalformedIdentityError,
    MalformedEncryptionKeyError,
    MalformedGatewayError,
}

/// The key bytes a base58 string stands for: `None` unless the string is
/// valid base58 of exactly the key length.
pub open spec fn key_from_b58(s: Seq<char>) -> Option<Seq<u8>> {
    match bs58_decoded(s) {
        Option::Some(b) => if b.len() == 32 {
            Option::Some(b)
        } else {
            Option::None
        },
        Option::None => Option::None,
    }
}

///`p` is the position of the one and only occurrence of `c` in `s`.
pub open spec fn splits_at(s: Seq<char>, c: char, p: int) -> bool {
    &&& 0 <= p < s.len()
    &&& s[p] == c
    &&& forall|q: int| 0 <= q < s.len() && q != p ==> s[q] != c
}

/// A public key held as its raw bytes; validity of the underlying curve
/// point is out of scope here.
#[derive(Debug)]
pub struct PublicKeyBytes {
    bytes: Vec<u8>,
}

pub type ClientIdentity = PublicKeyBytes;

pub type ClientEncryptionKey = PublicKeyBytes;

pub type NodeIdentity = PublicKeyBytes;

impl View for PublicKeyBytes {
    type V = Seq<u8>;

    closed spec fn view(&self) -> Seq<u8> {
        self.bytes@
    }
}

impl Clone for PublicKeyBytes {
    fn clone(&self) -> (k: PublicKeyBytes)
        ensures
            k@ == self@,
    {
        PublicKeyBytes { bytes: crate::types::clone_bytes(&self.bytes) }
    }
}

impl PublicKeyBytes {
    pub open spec fn wf(&self) -> bool {
        self@.len() == 32
    }

    pub fn from_bytes(bytes: Vec<u8>) -> (k: PublicKeyBytes)
        requires
            bytes@.len() == 32,
        ensures
            k@ == bytes@,
            k.wf(),
    {
        PublicKeyBytes { bytes }
    }

    pub fn to_bytes(&self) -> (b: Vec<u8>)
        ensures
            b@ == self@,
    {
        crate::types::clone_bytes(&self.bytes)
    }

    pub fn to_base58_string(&self) -> (s: String)
        ensures
            s@ == bs58_encoded(self@),
    {
        crate::ext::bs58_encode(self.bytes.as_slice())
    }

    pub fn from_base58_string(s: &str) -> (r: Result<PublicKeyBytes, ()>)
        ensures
            match r {
                Result::Ok(k) => key_from_b58(s@) == Option::Some(k@) && k.wf(),
                Result::Err(()) => key_from_b58(s@) is None,
            },
    {
        match crate::ext::bs58_decode(s) {
            Option::Some(bytes) => {
                if bytes.len() == 32 {
                    Result::Ok(PublicKeyBytes { bytes })
                } else {
                    Result::Err(())
                }
            },
            Option::None => Result::Err(()),
        }
    }
}

/// Where a message can be delivered: the receiving client's two keys and the
/// gateway it sits behind.
#[derive(Debug)]
pub struct Recipient {
    pub client_identity: ClientIdentity,
    pub client_encryption_key: ClientEncryptionKey,
    pub gateway: NodeIdentity,
}

impl Clone for Recipient {
    fn clone(&self) -> (r: Recipient)
        ensures
            r.client_identity@ == self.client_identity@,
            r.client_encryption_key@ == self.client_encryption_key@,
            r.gateway@ == self.gateway@,
    {
        Recipient {
            client_identity: self.client_identity.clone(),
            client_encryption_key: self.client_encryption_key.clone(),
            gateway: self.gateway.clone(),
        }
    }
}

fn append_bytes(out: &mut Vec<u8>, src: &Vec<u8>)
    ensures
        final(out)@ == old(out)@ + src@,
{
    let n = src.len();
    let ghost pre = out@;
    let mut i: usize = 0;
    while i < n
        invariant
            n == src@.len(),
            i <= n,
            out@ == pre + src@.subrange(0, i as int),
        decreases n - i,
    {
        out.push(src[i]);
        proof {
            assert(out@ =~= pre + src@.subrange(0, i + 1));
        }
        i += 1;
    }
    proof {
        assert(pre + src@.subrange(0, n as int) =~= pre + src@);
    }
}

impl Recipient {
    pub open spec fn wf(&self) -> bool {
        &&& self.client_identity.wf()
        &&& self.client_encryption_key.wf()
        &&& self.gateway.wf()
    }

    pub fn new(
        client_identity: ClientIdentity,
        client_encryption_key: ClientEncryptionKey,
        gateway: NodeIdentity,
    ) -> (r: Recipient)
        ensures
            r.client_identity@ == client_identity@,
            r.client_encryption_key@ == client_encryption_key@,
            r.gateway@ == gateway@,
    {
        Recipient { client_identity, client_encryption_key, gateway }
    }

    pub fn identity(&self) -> (k: &ClientIdentity)
        ensures
            k@ == self.client_identity@,
    {
        &self.client_identity
    }

    pub fn encryption_key(&self) -> (k: &ClientEncryptionKey)
        ensures
            k@ == self.client_encryption_key@,
    {
        &self.client_encryption_key
    }

    pub fn gateway(&self) -> (k: &NodeIdentity)
        ensures
            k@ == self.gateway@,
    {
        &self.gateway
    }

    /// The recipient as its byte form: identity, encryption key and gateway
    /// identity, back to back.
    pub fn into_bytes(self) -> (b: Vec<u8>)
        requires
            self.wf(),
        ensures
            b@ == self.client_identity@ + self.client_encryption_key@ + self.gateway@,
            b@.len() == RECIPIENT_LEN,
    {
        let mut out = self.client_identity.to_bytes();
        append_bytes(&mut out, &self.client_encryption_key.bytes);
        append_bytes(&mut out, &self.gateway.bytes);
        out
    }

    /// The recipient a byte form stands for: the three keys cut back out of
    /// it. Every byte form of the right length parses.
    pub fn try_from_bytes(bytes: &[u8]) -> (r: Result<Recipient, RecipientFormattingError>)
        requires
            bytes@.len() == RECIPIENT_LEN,
        ensures
            r matches Ok(rec) && rec.wf() && rec.client_identity@ == bytes@.subrange(0, 32)
                && rec.client_encryption_key@ == bytes@.subrange(32, 64) && rec.gateway@
                == bytes@.subrange(64, 96),
    {
        let client_identity = PublicKeyBytes::from_bytes(bytes_range(bytes, 0, 32));
        let client_encryption_key = PublicKeyBytes::from_bytes(bytes_range(bytes, 32, 64));
        let gateway = PublicKeyBytes::from_bytes(bytes_range(bytes, 64, 96));
        Result::Ok(Recipient { client_identity, client_encryption_key, gateway })
    }

    /// The recipient written `identity.encryption@gateway`, each part in
    /// base58.
    pub fn to_address_string(&self) -> (s: String)
        ensures
            s@ == bs58_encoded(self.client_identity@) + "."@ + bs58_encoded(
                self.client_encryption_key@,
            ) + "@"@ + bs58_encoded(self.gateway@),
    {
        let mut s = self.client_identity.to_base58_string();
        s.append(".");
        s.append(self.client_encryption_key.to_base58_string().as_str());
        s.append("@");
        s.append(self.gateway.to_base58_string().as_str());
        s
    }

    /// Parses `identity.encryption@gateway`: the string must hold exactly
    /// one `@`, its client half exactly one `.`, and each of the three parts
    /// must be base58 of exactly the key length.
    pub fn try_from_string(full_address: &str) -> (r: Result<Recipient, RecipientFormattingError>)
        ensures
            ({
                let s = full_address@;
                &&& (!(exists|p: int| splits_at(s, '@', p)) ==> r == Result::<
                    Recipient,
                    RecipientFormattingError,
                >::Err(RecipientFormattingError::MalformedRecipientError))
                &&& (forall|p: int|
                    #[trigger] splits_at(s, '@', p) ==> parse_after_at(
                        r,
                        s.subrange(0, p),
                        s.subrange(p + 1, s.len() as int),
                    ))
            }),
    {
        let n = full_address.unicode_len();
        let at = match find_single(full_address, '@') {
            Result::Ok(p) => p,
            Result::Err(()) => {
                return Result::Err(RecipientFormattingError::MalformedRecipientError);
            },
        };
        let client_half = full_address.substring_char(0, at);
        let gateway_half = full_address.substring_char(at + 1, n);
        let dot = match find_single(client_half, '.') {
            Result::Ok(p) => p,
            Result::Err(()) => {
                return Result::Err(RecipientFormattingError::MalformedRecipientError);
            },
        };
        let id_half = client_half.substring_char(0, dot);
        let enc_half = client_half.substring_char(dot + 1, client_half.unicode_len());
        let client_identity = match PublicKeyBytes::from_base58_string(id_half) {
            Result::Ok(k) => k,
            Result::Err(()) => {
                return Result::Err(RecipientFormattingError::MalformedIdentityError);
            },
        };
        let client_encryption_key = match PublicKeyBytes::from_base58_string(enc_half) {
            Result::Ok(k) => k,
            Result::Err(()) => {
                return Result::Err(RecipientFormattingError::MalformedEncryptionKeyError);
            },
        };
        let gateway = match PublicKeyBytes::from_base58_string(gateway_half) {
            Result::Ok(k) => k,
            Result::Err(()) => {
                return Result::Err(RecipientFormattingError::MalformedGatewayError);
            },
        };
        Result::Ok(Recipient { client_identity, client_encryption_key, gateway })
    }
}

/// What parsing yields once the address is split at its single `@` into the
/// client half and the gateway half.
pub open spec fn parse_after_at(
    r: Result<Recipient, RecipientFormattingError>,
    client: Seq<char>,
    gateway: Seq<char>,
) -> bool {
    &&& (!(exists|d: int| splits_at(client, '.', d)) ==> r == Result::<
        Recipient,
        RecipientFormattingError,
    >::Err(RecipientFormattingError::MalformedRecipientError))
    &&& (forall|d: int|
        #[trigger] splits_at(client, '.', d) ==> parse_after_dot(
            r,
            client.subrange(0, d),
            client.subrange(d + 1, client.len() as int),
            gateway,
        ))
}

/// What parsing yields once the client half is split at its single `.` into
/// the identity and encryption parts.
pub open spec fn parse_after_dot(
    r: Result<Recipient, RecipientFormattingError>,
    idstr: Seq<char>,
    encstr: Seq<char>,
    gwstr: Seq<char>,
) -> bool {
    match key_from_b58(idstr) {
        Option::None => r == Result::<Recipient, RecipientFormattingError>::Err(
            RecipientFormattingError::MalformedIdentityError,
        ),
        Option::Some(idb) => match key_from_b58(encstr) {
            Option::None => r == Result::<Recipient, RecipientFormattingError>::Err(
                RecipientFormattingError::MalformedEncryptionKeyError,
            ),
            Option::Some(encb) => match key_from_b58(gwstr) {
                Option::None => r == Result::<Recipient, RecipientFormattingError>::Err(
                    RecipientFormattingError::MalformedGatewayError,
                ),
                Option::Some(gwb) => r matches Ok(rec) && rec.wf() && rec.client_identity@ == idb
                    && rec.client_encryption_key@ == encb && rec.gateway@ == gwb,
            },
        },
    }
}

/// The bytes of `b` from `from` (inclusive) to `to` (exclusive).
fn bytes_range(b: &[u8], from: usize, to: usize) -> (r: Vec<u8>)
    requires
        from <= to <= b@.len(),
    ensures
        r@ == b@.subrange(from as int, to as int),
{
    let mut out: Vec<u8> = Vec::new();
    let mut i: usize = from;
    while i < to
        invariant
            from <= i <= to <= b@.len(),
            out@ == b@.subrange(from as int, i as int),
        decreases to - i,
    {
        out.push(b[i]);
        proof {
            assert(out@ =~= b@.subrange(from as int, i + 1));
        }
        i += 1;
    }
    out
}

/// The position of the single occurrence of `c` in `s`: an error when `c`
/// does not occur, or occurs more than once.
fn find_single(s: &str, c: char) -> (r: Result<usize, ()>)
    ensures
        match r {
            Result::Ok(p) => splits_at(s@, c, p as int),
            Result::Err(()) => !(exists|p: int| splits_at(s@, c, p)),
        },
{
    let n = s.unicode_len();
    let mut i: usize = 0;
    let mut found: Option<usize> = Option::None;
    while i < n
        invariant
            n == s@.len(),
            i <= n,
            match found {
                Option::Some(p) => p < i && s@[p as int] == c && (forall|q: int|
                    0 <= q < i && q != p ==> s@[q] != c),
                Option::None => forall|q: int| 0 <= q < i ==> s@[q] != c,
            },
        decreases n - i,
    {
        if s.get_char(i) == c {
            match found {
                Option::Some(p) => {
                    // a second occurrence: no position can split the string
                    proof {
                        assert forall|p2: int| !splits_at(s@, c, p2) by {
                            if splits_at(s@, c, p2) {
                                if p2 != p as int {
                                    assert(s@[p as int] != c);
                                } else {
                                    assert(s@[i as int] != c);
                                }
                            }
                        }
                    }
                    return Result::Err(());
                },
                Option::None => {
                    found = Option::Some(i);
                },
            }
        }
        i += 1;
    }
    match found {
        Option::Some(p) => Result::Ok(p),
        Option::None => {
            proof {
                assert forall|p: int| !splits_at(s@, c, p) by {
                    if splits_at(s@, c, p) {
                        assert(s@[p] != c);
                    }
                }
            }
            Result::Err(())
        },
    }
}

} // verus!
