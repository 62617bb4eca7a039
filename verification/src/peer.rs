//! Peers, their storage keys and their byte encoding.
use vstd::prelude::*;
use vstd::bytes::*;
use vstd::slice::*;
use vstd::utf8::*;

verus! {

/// An IP address of either family, held as the integer that its octets spell
/// in network order.
#[derive(Clone, Copy, Debug, PartialEq, Eq, Structural, Hash)]
pub enum IpAddress {
    V4(u32),
    V6(u128),
}

impl IpAddress {
    /// Whether the address belongs to the IPv4 family.
    pub fn is_ipv4(&self) -> (r: bool)
        ensures
            r == (*self is V4),
    {
        match self {
            IpAddress::V4(_) => true,
            IpAddress::V6(_) => false,
        }
    }
}

/// The failures that the tracker core finds by itself. A failure of the
/// store is reported by whoever talks to it.
#[derive(Clone, Copy, Debug, PartialEq, Eq, Structural)]
pub enum TrackerError {
    /// The request is malformed or says too little.
    Request,
    /// Stored bytes are no encoding of a peer.
    Decode,
}

/// One client in a swarm. Two peers are the same only if all three fields agree.
#[derive(Clone, Debug, PartialEq, Eq, Hash)]
pub struct Peer {
    pub id: String,
    pub ip: IpAddress,
    pub port: u16,
}

/// The mathematical value of a [`Peer`].
pub ghost struct PeerView {
    pub id: Seq<char>,
    pub ip: IpAddress,
    pub port: u16,
}

impl View for Peer {
    type V = PeerView;

    open spec fn view(&self) -> PeerView {
        PeerView { id: self.id@, ip: self.ip, port: self.port }
    }
}

/// The tag byte that opens an IPv4 address in the encoding.
pub const TAG_V4: u8 = 4;

/// The tag byte that opens an IPv6 address in the encoding.
pub const TAG_V6: u8 = 6;

/// The encoding of an address: its tag, then its integer in little-endian order.
pub open spec fn encode_ip(ip: IpAddress) -> Seq<u8> {
    match ip {
        IpAddress::V4(a) => seq![TAG_V4] + spec_u32_to_le_bytes(a),
        IpAddress::V6(a) => seq![TAG_V6] + spec_u128_to_le_bytes(a),
    }
}

/// A peer can be encoded when the byte length of its id fits the length field.
pub open spec fn encodable(p: PeerView) -> bool {
    encode_utf8(p.id).len() <= u64::MAX
}

/// The stored form of a peer: the id's byte length in eight little-endian
/// bytes, the id in UTF-8, the address, and the port in two little-endian bytes.
pub open spec fn encode_peer(p: PeerView) -> Seq<u8> {
    spec_u64_to_le_bytes(encode_utf8(p.id).len() as u64) + encode_utf8(p.id) + encode_ip(p.ip)
        + spec_u16_to_le_bytes(p.port)
}

/// The peer that a byte string stands for, if it is the stored form of one.
/// Nothing may follow the port.
pub open spec fn decode_peer(b: Seq<u8>) -> Option<PeerView> {
    if b.len() < 8 {
        None
    } else {
        let n = spec_u64_from_le_bytes(b.subrange(0, 8)) as int;
        if b.len() - 9 < n {
            None
        } else {
            let id = b.subrange(8, 8 + n);
            let tag = b[8 + n];
            let rest = b.subrange(9 + n, b.len() as int);
            if !valid_utf8(id) {
                None
            } else if tag == TAG_V4 && rest.len() == 6 {
                Some(
                    PeerView {
                        id: decode_utf8(id),
                        ip: IpAddress::V4(spec_u32_from_le_bytes(rest.subrange(0, 4))),
                        port: spec_u16_from_le_bytes(rest.subrange(4, 6)),
                    },
                )
            } else if tag == TAG_V6 && rest.len() == 18 {
                Some(
                    PeerView {
                        id: decode_utf8(id),
                        ip: IpAddress::V6(spec_u128_from_le_bytes(rest.subrange(0, 16))),
                        port: spec_u16_from_le_bytes(rest.subrange(16, 18)),
                    },
                )
            } else {
                None
            }
        }
    }
}

/// Decoding the stored form of a peer gives that peer back, in all three fields.
pub proof fn lemma_decode_encode(p: PeerView)
    requires
        encodable(p),
    ensures
        decode_peer(encode_peer(p)) == Some(p),
{
    lemma_auto_spec_u64_to_from_le_bytes();
    lemma_auto_spec_u32_to_from_le_bytes();
    lemma_auto_spec_u128_to_from_le_bytes();
    lemma_auto_spec_u16_to_from_le_bytes();
    broadcast use encode_utf8_valid_utf8, encode_utf8_decode_utf8;

    let idb = encode_utf8(p.id);
    let n = idb.len() as int;
    let head = spec_u64_to_le_bytes(n as u64);
    let port = spec_u16_to_le_bytes(p.port);
    let b = encode_peer(p);
    assert(b.subrange(0, 8) =~= head);
    assert(b.subrange(8, 8 + n) =~= idb);
    let rest = b.subrange(9 + n, b.len() as int);
    match p.ip {
        IpAddress::V4(a) => {
            assert(b[8 + n] == TAG_V4);
            assert(rest.subrange(0, 4) =~= spec_u32_to_le_bytes(a));
            assert(rest.subrange(4, 6) =~= port);
        },
        IpAddress::V6(a) => {
            assert(b[8 + n] == TAG_V6);
            assert(rest.subrange(0, 16) =~= spec_u128_to_le_bytes(a));
            assert(rest.subrange(16, 18) =~= port);
        },
    }
}

/// Whatever decodes to a peer is that peer's stored form: each peer has one
/// encoding, so membership in a stored set is membership of the peer.
pub proof fn lemma_encode_decode(b: Seq<u8>)
    requires
        decode_peer(b) is Some,
    ensures
        encodable(decode_peer(b).unwrap()),
        encode_peer(decode_peer(b).unwrap()) == b,
{
    lemma_auto_spec_u64_to_from_le_bytes();
    lemma_auto_spec_u32_to_from_le_bytes();
    lemma_auto_spec_u128_to_from_le_bytes();
    lemma_auto_spec_u16_to_from_le_bytes();
    broadcast use decode_utf8_encode_utf8;

    let n = spec_u64_from_le_bytes(b.subrange(0, 8)) as int;
    let p = decode_peer(b).unwrap();
    let id = b.subrange(8, 8 + n);
    assert(encode_utf8(p.id) == id);
    assert(encode_peer(p) =~= b);
}

/// `a` followed by `b`.
fn concat_bytes(a: Vec<u8>, b: &[u8]) -> (r: Vec<u8>)
    ensures
        r@ == a@ + b@,
{
    let mut out: Vec<u8> = a;
    let mut i: usize = 0;
    while i < b.len()
        invariant
            i <= b@.len(),
            out@ == a@ + b@.subrange(0, i as int),
        decreases b@.len() - i,
    {
        out.push(b[i]);
        i += 1;
        assert(out@ =~= a@ + b@.subrange(0, i as int));
    }
    assert(b@.subrange(0, i as int) =~= b@);
    out
}

/// `String::from_utf8`: the text that the bytes spell, or `None` where they
/// are not valid UTF-8.
#[verifier::external_body]
fn string_from_utf8(bytes: Vec<u8>) -> (r: Option<String>)
    ensures
        r is Some <==> valid_utf8(bytes@),
        r is Some ==> r.unwrap()@ == decode_utf8(bytes@),
{
    match String::from_utf8(bytes) {
        Ok(s) => Some(s),
        Err(_) => None,
    }
}

/// `format!` on three pieces: their texts one after the other.
#[verifier::external_body]
fn concat3(a: &str, b: &str, c: &str) -> (r: String)
    ensures
        r@ == a@ + b@ + c@,
{
    format!("{a}{b}{c}")
}

/// The key of the seeder set of a torrent.
pub open spec fn seeders_key(info_hash: Seq<char>) -> Seq<char> {
    "info:"@ + info_hash + ":seeders"@
}

/// The key of the leecher set of a torrent.
pub open spec fn leechers_key(info_hash: Seq<char>) -> Seq<char> {
    "info:"@ + info_hash + ":leechers"@
}

/// The two sets of a torrent never share a key.
pub proof fn lemma_keys_differ(info_hash: Seq<char>)
    ensures
        seeders_key(info_hash) != leechers_key(info_hash),
{
    reveal_strlit("info:");
    reveal_strlit(":seeders");
    reveal_strlit(":leechers");
    assert(seeders_key(info_hash).len() != leechers_key(info_hash).len());
}

impl Peer {
    pub fn new(id: String, ip: IpAddress, port: u16) -> (r: Self)
        ensures
            r.id == id,
            r.ip == ip,
            r.port == port,
    {
        Peer { id, ip, port }
    }

    /// The stored form of the peer.
    pub fn bin_encode(&self) -> (r: Vec<u8>)
        ensures
            encodable(self@),
            r@ == encode_peer(self@),
            decode_peer(r@) == Some(self@),
    {
        let id = self.id.as_str().as_bytes();
        let n: usize = id.len();
        let mut out: Vec<u8> = u64_to_le_bytes(n as u64);
        out = concat_bytes(out, id);
        match self.ip {
            IpAddress::V4(a) => {
                out.push(TAG_V4);
                let octets = u32_to_le_bytes(a);
                out = concat_bytes(out, octets.as_slice());
            },
            IpAddress::V6(a) => {
                out.push(TAG_V6);
                let octets = u128_to_le_bytes(a);
                out = concat_bytes(out, octets.as_slice());
            },
        }
        let port = u16_to_le_bytes(self.port);
        out = concat_bytes(out, port.as_slice());
        proof {
            assert(out@ =~= encode_peer(self@));
            lemma_decode_encode(self@);
        }
        out
    }

    /// The peer that `data` is the stored form of; `Decode` where it is none.
    pub fn bin_decode(data: &[u8]) -> (r: Result<Self, TrackerError>)
        ensures
            match decode_peer(data@) {
                Some(p) => r is Ok && r.unwrap()@ == p,
                None => r == Err::<Self, TrackerError>(TrackerError::Decode),
            },
    {
        let len: usize = data.len();
        if len < 8 {
            return Err(TrackerError::Decode);
        }
        let n: u64 = u64_from_le_bytes(slice_subrange(data, 0, 8));
        if ((len - 8) as u64) < n || (len - 8) as u64 == n {
            return Err(TrackerError::Decode);
        }
        let n: usize = n as usize;
        let id_bytes = slice_to_vec(slice_subrange(data, 8, 8 + n));
        let tag: u8 = data[8 + n];
        let rest = slice_subrange(data, 9 + n, len);
        let id = match string_from_utf8(id_bytes) {
            Some(id) => id,
            None => {
                return Err(TrackerError::Decode);
            },
        };
        if tag == TAG_V4 && rest.len() == 6 {
            let a: u32 = u32_from_le_bytes(slice_subrange(rest, 0, 4));
            let port: u16 = u16_from_le_bytes(slice_subrange(rest, 4, 6));
            Ok(Peer { id, ip: IpAddress::V4(a), port })
        } else if tag == TAG_V6 && rest.len() == 18 {
            let a: u128 = u128_from_le_bytes(slice_subrange(rest, 0, 16));
            let port: u16 = u16_from_le_bytes(slice_subrange(rest, 16, 18));
            Ok(Peer { id, ip: IpAddress::V6(a), port })
        } else {
            Err(TrackerError::Decode)
        }
    }

    /// The store key of the seeder set of `info_hash`.
    pub fn key_seeders(info_hash: &str) -> (r: String)
        ensures
            r@ == seeders_key(info_hash@),
    {
        concat3("info:", info_hash, ":seeders")
    }

    /// The store key of the leecher set of `info_hash`.
    pub fn key_leechers(info_hash: &str) -> (r: String)
        ensures
            r@ == leechers_key(info_hash@),
    {
        concat3("info:", info_hash, ":leechers")
    }
}

} // verus!
