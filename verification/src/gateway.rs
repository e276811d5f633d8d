//! Connections to gateways, and the relay circuits that make a peer reachable through them.

use vstd::prelude::*;

use crate::ids::PeerId;

verus! {

/// The binary form of the component `/p2p-circuit` of an address.
pub const CIRCUIT_COMPONENT: [u8; 2] = [0xA2, 0x02];

/// The binary form of `address` with the identity of the peer with the given multihash at its
/// end, or nothing where `address` is no address or ends in the identity of another peer.
pub uninterp spec fn addressed(
    address: Seq<u8>,
    code: u64,
    size: u8,
    d0: u128,
    d1: u128,
    d2: u128,
    d3: u128,
) -> Option<Seq<u8>>;

/// `libp2p::Multiaddr::with_p2p`, on the address with the given binary form and the peer of the
/// given multihash, binary again. It only ever adds to the end of the address.
#[verifier::external_body]
fn with_p2p(
    address: &Vec<u8>,
    code: u64,
    size: u8,
    d0: u128,
    d1: u128,
    d2: u128,
    d3: u128,
) -> (extended: Option<Vec<u8>>)
    requires
        size <= 64,
        code == 0x12 || (code == 0 && size <= 42),
    ensures
        extended is Some <==> addressed(address@, code, size, d0, d1, d2, d3) is Some,
        extended matches Some(bytes) ==> Some(bytes@) == addressed(
            address@,
            code,
            size,
            d0,
            d1,
            d2,
            d3,
        ) && address@.is_prefix_of(bytes@),
{
    let digest = [d0, d1, d2, d3].map(u128::to_be_bytes).concat();
    let hash = libp2p::multihash::Multihash::<64>::wrap(code, &digest[..size as usize]).unwrap();
    let peer = libp2p::PeerId::from_multihash(hash).unwrap();
    let address = libp2p::Multiaddr::try_from(address.clone()).ok()?;
    address.with_p2p(peer).ok().map(|extended| extended.to_vec())
}

/// The address that a peer listens on through the gateway `peer` at `address`.
pub open spec fn circuit_address(address: Seq<u8>, peer: PeerId) -> Option<Seq<u8>> {
    match addressed(address, peer.code, peer.size, peer.d0, peer.d1, peer.d2, peer.d3) {
        Some(extended) => Some(extended + CIRCUIT_COMPONENT@),
        None => None,
    }
}

/// Puts `/p2p-circuit` at the end of an address that names its peer.
pub fn through_circuit(addressed: Option<Vec<u8>>) -> (relay: Result<Vec<u8>, String>)
    ensures
        addressed matches Some(address) ==> (relay matches Ok(relay) && relay@ == address@
            + CIRCUIT_COMPONENT@),
        addressed is None ==> (relay matches Err(error) && error@
            == "Failed to construct circuit address"@),
{
    match addressed {
        Some(address) => {
            let mut relay: Vec<u8> = address;
            relay.push(CIRCUIT_COMPONENT[0]);
            relay.push(CIRCUIT_COMPONENT[1]);
            assert(relay@ =~= address@ + CIRCUIT_COMPONENT@);
            Ok(relay)
        },
        None => Err("Failed to construct circuit address".to_owned()),
    }
}

/// The address to listen on through a gateway that was dialed, if circuits are enabled.
pub fn relay_address(enable_circuit: bool, address: &Vec<u8>, peer: PeerId) -> (relay: Result<
    Option<Vec<u8>>,
    String,
>)
    requires
        peer.valid(),
    ensures
        !enable_circuit ==> relay == Ok::<Option<Vec<u8>>, String>(None),
        enable_circuit ==> match circuit_address(address@, peer) {
            Some(circuit) => {
                &&& relay matches Ok(Some(relay)) && relay@ == circuit
                &&& address@.is_prefix_of(circuit)
            },
            None => relay matches Err(error) && error@ == "Failed to construct circuit address"@,
        },
{
    if !enable_circuit {
        return Ok(None);
    }
    let extended = with_p2p(address, peer.code, peer.size, peer.d0, peer.d1, peer.d2, peer.d3);
    match through_circuit(extended) {
        Ok(relay) => Ok(Some(relay)),
        Err(error) => Err(error),
    }
}

/// The peers of the gateways that were reached, in the same order.
pub open spec fn reached(results: Seq<Result<PeerId, String>>) -> Seq<PeerId>
    decreases results.len(),
{
    if results.len() == 0 {
        Seq::empty()
    } else {
        match results.last() {
            Ok(peer) => reached(results.drop_last()).push(peer),
            Err(_) => reached(results.drop_last()),
        }
    }
}

/// The gateways that were reached; to reach none is an error.
pub fn connected(results: &Vec<Result<PeerId, String>>) -> (peers: Result<Vec<PeerId>, String>)
    ensures
        reached(results@).len() > 0 ==> (peers matches Ok(peers) && peers@ == reached(results@)),
        reached(results@).len() == 0 ==> (peers matches Err(error) && error@
            == "Failed to connect to any gateway"@),
{
    let mut peers: Vec<PeerId> = Vec::new();
    for i in 0..results.len()
        invariant
            peers@ == reached(results@.take(i as int)),
    {
        assert(results@.take(i + 1).drop_last() =~= results@.take(i as int));
        if let Ok(peer) = &results[i] {
            peers.push(*peer);
        }
    }
    assert(results@.take(results@.len() as int) =~= results@);
    if peers.len() == 0 {
        Err("Failed to connect to any gateway".to_owned())
    } else {
        Ok(peers)
    }
}

/// A single gateway that answers is enough, and only gateways that answered are counted.
pub proof fn law_one_gateway_is_enough(results: Seq<Result<PeerId, String>>)
    ensures
        reached(results).len() > 0 <==> exists|i: int|
            0 <= i < results.len() && (#[trigger] results[i]) is Ok,
        forall|peer: PeerId|
            #[trigger] reached(results).contains(peer) <==> exists|i: int|
                0 <= i < results.len() && (#[trigger] results[i]) == Ok::<PeerId, String>(peer),
    decreases results.len(),
{
    if results.len() > 0 {
        let rest = results.drop_last();
        law_one_gateway_is_enough(rest);
        assert forall|i: int| 0 <= i < rest.len() implies (#[trigger] results[i]) == rest[i] by {}
        let last = results.len() - 1;
        assert(results[last] == results.last());
        assert forall|peer: PeerId| #[trigger] reached(results).contains(peer) <==> exists|i: int|
            0 <= i < results.len() && (#[trigger] results[i]) == Ok::<PeerId, String>(peer) by {
            if let Ok(newest) = results.last() {
                let before = reached(rest);
                assert(reached(results) == before.push(newest));
                assert(before.push(newest)[before.len() as int] == newest);
                if before.contains(peer) {
                    let k = before.index_of(peer);
                    assert(before.push(newest)[k] == peer);
                }
                if before.push(newest).contains(peer) {
                    let k = before.push(newest).index_of(peer);
                    if k < before.len() {
                        assert(before[k] == peer);
                    }
                }
            }
            if exists|i: int|
                0 <= i < results.len() && (#[trigger] results[i]) == Ok::<PeerId, String>(peer) {
                let i = choose|i: int|
                    0 <= i < results.len() && (#[trigger] results[i]) == Ok::<PeerId, String>(peer);
                if i < last {
                    assert(rest[i] == Ok::<PeerId, String>(peer));
                }
            }
        }
        if exists|i: int| 0 <= i < results.len() && (#[trigger] results[i]) is Ok {
            let i = choose|i: int| 0 <= i < results.len() && (#[trigger] results[i]) is Ok;
            if i < last {
                assert(rest[i] is Ok);
            }
        }
    }
}

/// Each gateway is counted by its own answer, in the order of the answers: one that answered once,
/// one that did not not at all.
pub proof fn law_gateways_keep_their_order(
    first: Seq<Result<PeerId, String>>,
    second: Seq<Result<PeerId, String>>,
    peer: PeerId,
    error: String,
)
    ensures
        reached(first + second) == reached(first) + reached(second),
        reached(seq![Ok::<PeerId, String>(peer)]) == seq![peer],
        reached(seq![Err::<PeerId, String>(error)]) == Seq::<PeerId>::empty(),
    decreases second.len(),
{
    let one = seq![Ok::<PeerId, String>(peer)];
    let none = seq![Err::<PeerId, String>(error)];
    reveal_with_fuel(reached, 2);
    assert(one.drop_last() =~= Seq::empty());
    assert(none.drop_last() =~= Seq::empty());
    assert(reached(one) =~= seq![peer]);
    assert(reached(none) =~= Seq::<PeerId>::empty());
    if second.len() == 0 {
        assert(first + second =~= first);
        assert(reached(first) + reached(second) =~= reached(first));
    } else {
        law_gateways_keep_their_order(first, second.drop_last(), peer, error);
        assert((first + second).drop_last() =~= first + second.drop_last());
        assert((first + second).last() == second.last());
        assert(reached(first + second) =~= reached(first) + reached(second));
    }
}

/// The address through a gateway is that of the gateway with its identity, and the component for
/// circuits behind it. There is none where circuits are disabled.
pub proof fn law_circuits_lead_through_the_gateway(
    enabled: bool,
    address: &Vec<u8>,
    peer: PeerId,
    relay: Result<Option<Vec<u8>>, String>,
)
    requires
        call_ensures(relay_address, (enabled, address, peer), relay),
    ensures
        !enabled ==> relay is Ok && relay->Ok_0 is None,
        enabled ==> {
            let named = addressed(
                address@,
                peer.code,
                peer.size,
                peer.d0,
                peer.d1,
                peer.d2,
                peer.d3,
            );
            &&& relay is Ok <==> named is Some
            &&& named is Some ==> relay->Ok_0 is Some && relay->Ok_0->0@ == named->0.push(
                0xA2,
            ).push(0x02) && address@.is_prefix_of(relay->Ok_0->0@)
        },
        relay matches Err(error) ==> error@ == "Failed to construct circuit address"@,
{
    let named = addressed(address@, peer.code, peer.size, peer.d0, peer.d1, peer.d2, peer.d3);
    if enabled && named is Some {
        assert(relay->Ok_0->0@ =~= named->0.push(0xA2).push(0x02));
    }
}

/// Gateways that were reached are the peers of the dials that succeeded, in order; where none did,
/// there is nothing to go on with.
pub proof fn law_connections_are_those_that_answered(
    results: &Vec<Result<PeerId, String>>,
    peers: Result<Vec<PeerId>, String>,
    peer: PeerId,
)
    requires
        call_ensures(connected, (results,), peers),
    ensures
        peers is Ok <==> exists|i: int| 0 <= i < results@.len() && (#[trigger] results@[i]) is Ok,
        peers matches Ok(peers) ==> peers@ == reached(results@),
        peers matches Ok(peers) ==> (peers@.contains(peer) <==> exists|i: int|
            0 <= i < results@.len() && (#[trigger] results@[i]) == Ok::<PeerId, String>(peer)),
        peers matches Err(error) ==> error@ == "Failed to connect to any gateway"@,
{
    law_one_gateway_is_enough(results@);
}

} // verus!
