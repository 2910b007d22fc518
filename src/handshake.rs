//! The type-agreement handshake.
//!
//! Each end writes `be_bytes(digest(own_send, own_recv[, local, peer]))` and
//! expects to read `be_bytes(digest(own_recv, own_send[, peer, local]))`.
//! The reply matches exactly when the peer's pair mirrors this end's pair.
use vstd::prelude::*;

use crate::address::{SocketAddress, address_words, push_address_words, lemma_address_words_injective};
use crate::bytes::{be_bytes, lemma_be_bytes_injective, to_be_bytes};

verus! {

/// The fingerprint of a sequence of words, as std's `DefaultHasher` computes it.
pub uninterp spec fn words_digest(words: Seq<u64>) -> u64;

/// Relies on `BuildHasher::hash_one` over std's `DefaultHasher`, which is
/// created with fixed keys: the value depends on the words alone.
#[verifier::external_body]
fn digest(words: &[u64]) -> (r: u64)
    ensures
        r == words_digest(words@),
{
    std::hash::BuildHasher::hash_one(
        &std::hash::BuildHasherDefault::<std::hash::DefaultHasher>::default(),
        words,
    )
}

/// The reply did not carry the fingerprint this end expects: the peer uses
/// other message types (or, for a socket, sees another address pair).
#[derive(Clone, Copy, Debug, PartialEq, Eq, Structural)]
pub enum HandshakeError {
    Mismatch,
}

/// What one end contributes to the handshake: the id of the type it sends,
/// the id of the type it receives and, for a socket, its local and peer
/// addresses.
#[derive(Clone, Copy, Debug)]
pub struct Handshake {
    pub send_id: u64,
    pub recv_id: u64,
    pub binding: Option<(SocketAddress, SocketAddress)>,
}

impl Handshake {
    /// The words this end hashes into the fingerprint it sends.
    pub open spec fn sent_words(self) -> Seq<u64> {
        seq![self.send_id, self.recv_id] + match self.binding {
            None => Seq::empty(),
            Some((local, peer)) => address_words(local) + address_words(peer),
        }
    }

    /// The words this end hashes into the fingerprint it expects back.
    pub open spec fn expected_words(self) -> Seq<u64> {
        seq![self.recv_id, self.send_id] + match self.binding {
            None => Seq::empty(),
            Some((local, peer)) => address_words(peer) + address_words(local),
        }
    }

    /// The eight bytes this end writes.
    pub open spec fn outgoing_bytes(self) -> Seq<u8> {
        be_bytes(words_digest(self.sent_words()))
    }

    /// Whether this end accepts `reply` as the peer's fingerprint.
    pub open spec fn accepts(self, reply: Seq<u8>) -> bool {
        reply == be_bytes(words_digest(self.expected_words()))
    }

    /// The two ends mirror each other: one sends what the other receives,
    /// and, if bound to a connection, one's local address is the other's peer.
    pub open spec fn complements(self, other: Handshake) -> bool {
        &&& self.send_id == other.recv_id
        &&& self.recv_id == other.send_id
        &&& match (self.binding, other.binding) {
            (None, None) => true,
            (Some((l1, p1)), Some((l2, p2))) => l1 == p2 && p1 == l2,
            _ => false,
        }
    }

    /// An end of a channel over a joint or split transport.
    pub fn new(send_id: u64, recv_id: u64) -> (r: Handshake)
        ensures
            r.send_id == send_id,
            r.recv_id == recv_id,
            r.binding is None,
    {
        Handshake { send_id, recv_id, binding: None }
    }

    /// An unbound end that sends and receives the type `type_id`.
    pub open spec fn symmetric_spec(type_id: u64) -> Handshake {
        Handshake { send_id: type_id, recv_id: type_id, binding: None }
    }

    /// An end that sends and receives the same type.
    pub fn symmetric(type_id: u64) -> (r: Handshake)
        ensures
            r == Handshake::symmetric_spec(type_id),
    {
        Handshake { send_id: type_id, recv_id: type_id, binding: None }
    }

    /// An end of a channel over a connected socket, bound to its addresses.
    pub fn bound(send_id: u64, recv_id: u64, local: SocketAddress, peer: SocketAddress) -> (r:
        Handshake)
        ensures
            r.send_id == send_id,
            r.recv_id == recv_id,
            r.binding == Some((local, peer)),
    {
        Handshake { send_id, recv_id, binding: Some((local, peer)) }
    }

    /// The words of `sent_words`.
    pub fn sent_word_list(&self) -> (r: Vec<u64>)
        ensures
            r@ == self.sent_words(),
    {
        let mut r: Vec<u64> = Vec::new();
        r.push(self.send_id);
        r.push(self.recv_id);
        match &self.binding {
            None => {},
            Some((local, peer)) => {
                push_address_words(&mut r, local);
                push_address_words(&mut r, peer);
            },
        }
        assert(r@ =~= self.sent_words());
        r
    }

    /// The words of `expected_words`.
    pub fn expected_word_list(&self) -> (r: Vec<u64>)
        ensures
            r@ == self.expected_words(),
    {
        let mut r: Vec<u64> = Vec::new();
        r.push(self.recv_id);
        r.push(self.send_id);
        match &self.binding {
            None => {},
            Some((local, peer)) => {
                push_address_words(&mut r, peer);
                push_address_words(&mut r, local);
            },
        }
        assert(r@ =~= self.expected_words());
        r
    }

    /// The fingerprint this end sends.
    pub fn sent_fingerprint(&self) -> (r: u64)
        ensures
            r == words_digest(self.sent_words()),
    {
        let words = self.sent_word_list();
        digest(words.as_slice())
    }

    /// The fingerprint this end expects from its peer.
    pub fn expected_fingerprint(&self) -> (r: u64)
        ensures
            r == words_digest(self.expected_words()),
    {
        let words = self.expected_word_list();
        digest(words.as_slice())
    }

    /// The bytes to write to the transport before anything else.
    pub fn outgoing(&self) -> (r: Vec<u8>)
        ensures
            r@ == self.outgoing_bytes(),
    {
        to_be_bytes(self.sent_fingerprint())
    }

    /// Judges the eight bytes read from the peer.
    pub fn verify_reply(&self, reply: &[u8]) -> (r: Result<(), HandshakeError>)
        ensures
            r is Ok <==> self.accepts(reply@),
            r is Err ==> r == Err::<(), HandshakeError>(HandshakeError::Mismatch),
    {
        check_reply(self.expected_fingerprint(), reply)
    }
}

/// The words an end expects equal the words its peer sends exactly when the
/// two ends mirror each other: type pairs swapped and, for sockets, address
/// pairs swapped.
pub proof fn lemma_expected_matches_sent_iff_complementary(a: Handshake, b: Handshake)
    ensures
        (a.expected_words() == b.sent_words()) <==> a.complements(b),
{
    if a.complements(b) {
        assert(a.expected_words() =~= b.sent_words());
    }
    if a.expected_words() == b.sent_words() {
        let (x, y) = (a.expected_words(), b.sent_words());
        assert(x[0] == y[0] && x[1] == y[1]);
        match (a.binding, b.binding) {
            (None, None) => {},
            (Some((l1, p1)), Some((l2, p2))) => {
                assert(x.subrange(2, 8) =~= address_words(p1));
                assert(y.subrange(2, 8) =~= address_words(l2));
                assert(x.subrange(8, 14) =~= address_words(l1));
                assert(y.subrange(8, 14) =~= address_words(p2));
                lemma_address_words_injective(p1, l2);
                lemma_address_words_injective(l1, p2);
            },
            (None, Some(_)) => {
                assert(x.len() == 2 && y.len() == 14);
            },
            (Some(_), None) => {
                assert(x.len() == 14 && y.len() == 2);
            },
        }
    }
}

/// Two ends with mirrored type pairs (and mirrored addresses, if bound)
/// each accept the fingerprint the other sends.
pub proof fn lemma_complementary_ends_accept(a: Handshake, b: Handshake)
    requires
        a.complements(b),
    ensures
        a.accepts(b.outgoing_bytes()),
        b.accepts(a.outgoing_bytes()),
{
    lemma_expected_matches_sent_iff_complementary(a, b);
    lemma_expected_matches_sent_iff_complementary(b, a);
}

/// Comparing the eight bytes on the wire is comparing fingerprints: an end
/// accepts its peer's bytes exactly when the digest of its expected words
/// equals the digest of the words the peer sent.
pub proof fn lemma_accepts_iff_fingerprints_equal(a: Handshake, b: Handshake)
    ensures
        a.accepts(b.outgoing_bytes()) <==> words_digest(a.expected_words()) == words_digest(
            b.sent_words(),
        ),
{
    if a.accepts(b.outgoing_bytes()) {
        lemma_be_bytes_injective(words_digest(a.expected_words()), words_digest(b.sent_words()));
    }
}

/// When two ends receive the same type but send different ones, neither end
/// expects the words the other sends: each compares the digest of its own
/// expected words with the digest of different words.
pub proof fn lemma_different_send_types_disagree(a: Handshake, b: Handshake)
    requires
        a.send_id != b.send_id,
        a.recv_id == b.recv_id,
    ensures
        a.expected_words() != b.sent_words(),
        b.expected_words() != a.sent_words(),
{
    lemma_expected_matches_sent_iff_complementary(a, b);
    lemma_expected_matches_sent_iff_complementary(b, a);
}

/// Two ends that each send and receive one type agree exactly when the
/// types are the same; when they are, each accepts the other's fingerprint.
pub proof fn lemma_symmetric_ends_agree_iff_same_type(t: u64, u: u64)
    ensures
        (Handshake::symmetric_spec(t).expected_words() == Handshake::symmetric_spec(u).sent_words())
            <==> t == u,
        t == u ==> Handshake::symmetric_spec(t).accepts(Handshake::symmetric_spec(u).outgoing_bytes()),
{
    let (a, b) = (Handshake::symmetric_spec(t), Handshake::symmetric_spec(u));
    lemma_expected_matches_sent_iff_complementary(a, b);
    if t == u {
        lemma_complementary_ends_accept(a, b);
    }
}

/// Accepts `reply` exactly when it is the big-endian encoding of `expected`.
pub fn check_reply(expected: u64, reply: &[u8]) -> (r: Result<(), HandshakeError>)
    ensures
        r is Ok <==> reply@ == be_bytes(expected),
        r is Err ==> r == Err::<(), HandshakeError>(HandshakeError::Mismatch),
{
    let want = to_be_bytes(expected);
    if reply.len() != want.len() {
        return Err(HandshakeError::Mismatch);
    }
    let mut i: usize = 0;
    while i < want.len()
        invariant
            want@ == be_bytes(expected),
            reply@.len() == want@.len(),
            0 <= i <= want@.len(),
            forall|j: int| 0 <= j < i ==> reply@[j] == want@[j],
        decreases want@.len() - i,
    {
        if reply[i] != want[i] {
            return Err(HandshakeError::Mismatch);
        }
        i = i + 1;
    }
    assert(reply@ =~= want@);
    Ok(())
}

} // verus!
