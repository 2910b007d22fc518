//! Network endpoint addresses, as plain values.
use vstd::prelude::*;

verus! {

/// The address of one end of a connected socket.
///
/// An IPv4 address is held as its 32-bit value, an IPv6 address as its
/// 128-bit value, both in network order of significance.
#[derive(Clone, Copy, Debug, PartialEq, Eq, Structural)]
pub enum SocketAddress {
    V4 { ip: u32, port: u16 },
    V6 { ip: u128, port: u16, flowinfo: u32, scope_id: u32 },
}

pub open spec fn high_word(x: u128) -> u64 {
    (x >> 64u128) as u64
}

pub open spec fn low_word(x: u128) -> u64 {
    x as u64
}

/// Six words that stand for an address in a fingerprint: the family, the
/// address in two halves, the port, the flow label and the scope.
pub open spec fn address_words(a: SocketAddress) -> Seq<u64> {
    match a {
        SocketAddress::V4 { ip, port } => seq![4u64, 0u64, ip as u64, port as u64, 0u64, 0u64],
        SocketAddress::V6 { ip, port, flowinfo, scope_id } => seq![
            6u64,
            high_word(ip),
            low_word(ip),
            port as u64,
            flowinfo as u64,
            scope_id as u64,
        ],
    }
}

/// Appends the words of `a` to `out`.
pub fn push_address_words(out: &mut Vec<u64>, a: &SocketAddress)
    ensures
        final(out)@ == old(out)@ + address_words(*a),
{
    match a {
        SocketAddress::V4 { ip, port } => {
            out.push(4u64);
            out.push(0u64);
            out.push(*ip as u64);
            out.push(*port as u64);
            out.push(0u64);
            out.push(0u64);
        },
        SocketAddress::V6 { ip, port, flowinfo, scope_id } => {
            out.push(6u64);
            out.push((*ip >> 64u128) as u64);
            out.push(*ip as u64);
            out.push(*port as u64);
            out.push(*flowinfo as u64);
            out.push(*scope_id as u64);
        },
    }
    assert(final(out)@ =~= old(out)@ + address_words(*a));
}

/// Distinct addresses have distinct words.
pub proof fn lemma_address_words_injective(a: SocketAddress, b: SocketAddress)
    requires
        address_words(a) == address_words(b),
    ensures
        a == b,
{
    assert(address_words(a)[0] == address_words(b)[0]);
    assert(address_words(a)[1] == address_words(b)[1]);
    assert(address_words(a)[2] == address_words(b)[2]);
    assert(address_words(a)[3] == address_words(b)[3]);
    assert(address_words(a)[4] == address_words(b)[4]);
    assert(address_words(a)[5] == address_words(b)[5]);
    if let (SocketAddress::V6 { ip: x, .. }, SocketAddress::V6 { ip: y, .. }) = (a, b) {
        assert(((x >> 64u128) as u64 == (y >> 64u128) as u64 && x as u64 == y as u64) ==> x == y)
            by (bit_vector);
    }
}

} // verus!
