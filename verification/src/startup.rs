//! What a node decides while it starts: its files, its readiness and its data provider.

use vstd::prelude::*;

use crate::gateway::{connected, law_one_gateway_is_enough, reached};
use crate::ids::PeerId;
use crate::messages::headers::DataRecord;
use crate::messages::health;

verus! {

/// Files that hold the credentials of a node.
#[derive(Clone, Debug)]
pub struct CredentialFiles {
    pub cert_pem: String,
    pub key_pem: String,
    pub trust_pem: String,
}

/// The files that hold the credentials of the node `name`.
pub fn credential_files(name: &str) -> (files: CredentialFiles)
    ensures
        files.cert_pem@ == name@ + "-cert.pem"@,
        files.key_pem@ == name@ + "-key.pem"@,
        files.trust_pem@ == name@ + "-trust.pem"@,
{
    CredentialFiles {
        cert_pem: name.to_owned().concat("-cert.pem"),
        key_pem: name.to_owned().concat("-key.pem"),
        trust_pem: name.to_owned().concat("-trust.pem"),
    }
}

/// How far a node has come: it is ready once it listens on all addresses, has reached a gateway
/// and has found its place in the directory of the network.
#[derive(Clone, Copy, Debug)]
pub struct Readiness {
    listening: bool,
    connected: bool,
    bootstrapped: bool,
}

impl Readiness {
    pub closed spec fn listens(self) -> bool {
        self.listening
    }

    pub closed spec fn has_gateway(self) -> bool {
        self.connected
    }

    pub closed spec fn has_bootstrapped(self) -> bool {
        self.bootstrapped
    }

    /// Whether the node is ready.
    pub open spec fn ready(self) -> bool {
        self.listens() && self.has_gateway() && self.has_bootstrapped()
    }

    pub fn new() -> (readiness: Readiness)
        ensures
            !readiness.listens(),
            !readiness.has_gateway(),
            !readiness.has_bootstrapped(),
    {
        Readiness { listening: false, connected: false, bootstrapped: false }
    }

    /// The node listens on all addresses.
    pub fn now_listening(&mut self)
        ensures
            brought_to(*old(self), Milestone::Listening, *final(self)),
    {
        self.listening = true;
    }

    /// The node has dialed its gateways, with the given results. It goes on if it reached any of
    /// them.
    pub fn now_connected(&mut self, results: &Vec<Result<PeerId, String>>) -> (gateways: Result<
        Vec<PeerId>,
        String,
    >)
        ensures
            brought_to(*old(self), Milestone::Dialed(results@), *final(self)),
            reached(results@).len() > 0 ==> (gateways matches Ok(gateways) && gateways@ == reached(
                results@,
            )),
            reached(results@).len() == 0 ==> (gateways matches Err(error) && error@
                == "Failed to connect to any gateway"@),
    {
        let gateways = connected(results);
        if gateways.is_ok() {
            self.connected = true;
        }
        gateways
    }

    /// The node has found its place in the directory.
    pub fn now_bootstrapped(&mut self)
        ensures
            brought_to(*old(self), Milestone::Bootstrapped, *final(self)),
    {
        self.bootstrapped = true;
    }

    /// The answer to whoever asks for the health of the node.
    pub fn health(&self) -> (response: health::Response)
        ensures
            response.healthy == self.ready(),
    {
        health::Response { healthy: self.listening && self.connected && self.bootstrapped }
    }
}

/// What a node comes to while it starts.
pub enum Milestone {
    Listening,
    /// The gateways were dialed, with these results.
    Dialed(Seq<Result<PeerId, String>>),
    Bootstrapped,
}

impl Milestone {
    /// Whether a gateway was reached.
    pub open spec fn reaches_gateway(self) -> bool {
        self matches Milestone::Dialed(results) && reached(results).len() > 0
    }
}

/// Whether a milestone brings the readiness from `before` to `after`.
pub open spec fn brought_to(before: Readiness, milestone: Milestone, after: Readiness) -> bool {
    &&& after.listens() == (before.listens() || milestone is Listening)
    &&& after.has_gateway() == (before.has_gateway() || milestone.reaches_gateway())
    &&& after.has_bootstrapped() == (before.has_bootstrapped() || milestone is Bootstrapped)
}

/// Whether `states` are those of a node that starts with nothing done and comes to `milestones`.
pub open spec fn starts_up(states: Seq<Readiness>, milestones: Seq<Milestone>) -> bool {
    &&& states.len() == milestones.len() + 1
    &&& !states[0].listens()
    &&& !states[0].has_gateway()
    &&& !states[0].has_bootstrapped()
    &&& forall|i: int|
        0 <= i < milestones.len() ==> brought_to(
            states[i],
            #[trigger] milestones[i],
            states[i + 1],
        )
}

/// Health is earned, and lasts. A node answers that it is healthy exactly from when it has
/// listened on all addresses, reached a gateway and bootstrapped, in whatever order, and never
/// takes that back.
pub proof fn law_health_is_earned_and_lasts(
    states: Seq<Readiness>,
    milestones: Seq<Milestone>,
    at: int,
    later: int,
)
    requires
        starts_up(states, milestones),
        0 <= at <= later < states.len(),
    ensures
        states[at].ready() <==> {
            &&& exists|i: int| 0 <= i < at && (#[trigger] milestones[i]) is Listening
            &&& exists|i: int, j: int|
                0 <= i < at && (#[trigger] milestones[i]) is Dialed && 0 <= j
                    < milestones[i]->Dialed_0.len() && (#[trigger] milestones[i]->Dialed_0[j]) is Ok
            &&& exists|i: int| 0 <= i < at && (#[trigger] milestones[i]) is Bootstrapped
        },
        states[at].ready() ==> states[later].ready(),
{
    lemma_facts_so_far(states, milestones, at);
    lemma_facts_so_far(states, milestones, later);
    assert forall|i: int| 0 <= i < at implies ((#[trigger] milestones[i]).reaches_gateway() <==> (
    milestones[i] is Dialed && exists|j: int|
        0 <= j < milestones[i]->Dialed_0.len() && (#[trigger] milestones[i]->Dialed_0[j]) is Ok)) by {
        if milestones[i] is Dialed {
            law_one_gateway_is_enough(milestones[i]->Dialed_0);
        }
    }
}

proof fn lemma_facts_so_far(states: Seq<Readiness>, milestones: Seq<Milestone>, at: int)
    requires
        starts_up(states, milestones),
        0 <= at < states.len(),
    ensures
        states[at].listens() <==> exists|i: int|
            0 <= i < at && (#[trigger] milestones[i]) is Listening,
        states[at].has_gateway() <==> exists|i: int|
            0 <= i < at && (#[trigger] milestones[i]).reaches_gateway(),
        states[at].has_bootstrapped() <==> exists|i: int|
            0 <= i < at && (#[trigger] milestones[i]) is Bootstrapped,
    decreases at,
{
    if at > 0 {
        lemma_facts_so_far(states, milestones, at - 1);
        assert(brought_to(states[at - 1], milestones[at - 1], states[at]));
    }
}

/// What a probe concludes from the answer of a node.
pub fn probe_verdict(response: &health::Response) -> (verdict: Result<(), String>)
    ensures
        response.healthy ==> verdict == Ok::<(), String>(()),
        !response.healthy ==> (verdict matches Err(error) && error@ == "unhealthy"@),
{
    if response.healthy {
        Ok(())
    } else {
        Err("unhealthy".to_owned())
    }
}

/// What the directory holds about a dataset: who published it, and the record that its entry
/// holds or why that could not be read.
#[derive(Debug)]
pub struct DatasetEntry {
    pub publisher: Option<PeerId>,
    pub record: Result<DataRecord, String>,
}

/// What is said about a dataset that cannot be had.
pub open spec fn dataset_failure(
    dataset: Seq<char>,
    lookup: Result<DatasetEntry, String>,
) -> Option<Seq<char>> {
    match lookup {
        Err(error) => Some(
            "No data provider found for dataset \""@ + dataset + "\": "@ + error@,
        ),
        Ok(entry) => match (entry.publisher, entry.record) {
            (None, _) => Some("No data provider found for dataset \""@ + dataset + "\""@),
            (Some(_), Err(error)) => Some(
                "Failed to parse dataset record for dataset \""@ + dataset + "\": "@ + error@,
            ),
            (Some(_), Ok(_)) => None,
        },
    }
}

/// Find the data provider for the requested dataset
pub fn get_data_provider(dataset: &str, lookup: Result<DatasetEntry, String>) -> (provider: Result<
    (PeerId, DataRecord),
    String,
>)
    ensures
        match dataset_failure(dataset@, lookup) {
            Some(failure) => provider matches Err(error) && error@ == failure,
            None => {
                &&& lookup matches Ok(entry)
                &&& entry.publisher matches Some(peer)
                &&& entry.record matches Ok(record)
                &&& provider == Ok::<(PeerId, DataRecord), String>((peer, record))
            },
        },
{
    match lookup {
        Err(error) => Err(
            "No data provider found for dataset \"".to_owned().concat(dataset).concat("\": ").concat(
                error.as_str(),
            ),
        ),
        Ok(entry) => match entry.publisher {
            Some(peer) => match entry.record {
                Ok(record) => Ok((peer, record)),
                Err(error) => Err(
                    "Failed to parse dataset record for dataset \"".to_owned().concat(
                        dataset,
                    ).concat("\": ").concat(error.as_str()),
                ),
            },
            None => Err(
                "No data provider found for dataset \"".to_owned().concat(dataset).concat("\""),
            ),
        },
    }
}

/// A dataset is had exactly when the directory has an entry for it that names its publisher and
/// that can be read: then from that publisher, with that record. Else the failure names the
/// dataset and tells what was missing.
pub proof fn law_datasets_come_from_their_publisher(
    dataset: &str,
    lookup: Result<DatasetEntry, String>,
    provider: Result<(PeerId, DataRecord), String>,
)
    requires
        call_ensures(get_data_provider, (dataset, lookup), provider),
    ensures
        provider is Ok <==> lookup is Ok && lookup->Ok_0.publisher is Some
            && lookup->Ok_0.record is Ok,
        provider matches Ok((peer, record)) ==> Some(peer) == lookup->Ok_0.publisher && record
            == lookup->Ok_0.record->Ok_0,
        lookup is Err ==> provider->Err_0@ == "No data provider found for dataset \""@ + dataset@
            + "\": "@ + lookup->Err_0@,
        lookup is Ok && lookup->Ok_0.publisher is None ==> provider->Err_0@
            == "No data provider found for dataset \""@ + dataset@ + "\""@,
        lookup is Ok && lookup->Ok_0.publisher is Some && lookup->Ok_0.record is Err
            ==> provider->Err_0@ == "Failed to parse dataset record for dataset \""@ + dataset@
            + "\": "@ + lookup->Ok_0.record->Err_0@,
{
}

/// What a node does while it starts brings it further, and never back: to listen, to reach a
/// gateway, which takes one dial that succeeded, and to bootstrap. Whoever asks for its health is
/// told whether all three are done, and a probe passes exactly then.
pub proof fn law_starting_brings_a_node_further(
    fresh: Readiness,
    listening: &mut Readiness,
    dialing: &mut Readiness,
    results: &Vec<Result<PeerId, String>>,
    gateways: Result<Vec<PeerId>, String>,
    bootstrapping: &mut Readiness,
    asked: &Readiness,
    response: health::Response,
    verdict: Result<(), String>,
)
    requires
        call_ensures(Readiness::new, (), fresh),
        call_ensures(Readiness::now_listening, (listening,), ()),
        call_ensures(Readiness::now_connected, (dialing, results), gateways),
        call_ensures(Readiness::now_bootstrapped, (bootstrapping,), ()),
        call_ensures(Readiness::health, (asked,), response),
        call_ensures(probe_verdict, (&response,), verdict),
    ensures
        !fresh.listens() && !fresh.has_gateway() && !fresh.has_bootstrapped(),
        final(listening).listens(),
        final(listening).has_gateway() == old(listening).has_gateway(),
        final(listening).has_bootstrapped() == old(listening).has_bootstrapped(),
        gateways is Ok <==> exists|i: int|
            0 <= i < results@.len() && (#[trigger] results@[i]) is Ok,
        final(dialing).has_gateway() <==> old(dialing).has_gateway() || gateways is Ok,
        final(dialing).listens() == old(dialing).listens(),
        final(dialing).has_bootstrapped() == old(dialing).has_bootstrapped(),
        gateways matches Err(error) ==> error@ == "Failed to connect to any gateway"@,
        final(bootstrapping).has_bootstrapped(),
        final(bootstrapping).listens() == old(bootstrapping).listens(),
        final(bootstrapping).has_gateway() == old(bootstrapping).has_gateway(),
        response.healthy <==> asked.listens() && asked.has_gateway() && asked.has_bootstrapped(),
        verdict is Ok <==> response.healthy,
{
    law_one_gateway_is_enough(results@);
}

/// The files with the credentials of a node are named after it.
pub proof fn law_credentials_are_named_after_the_node(name: &str, files: CredentialFiles)
    requires
        call_ensures(credential_files, (name,), files),
    ensures
        name@.is_prefix_of(files.cert_pem@),
        name@.is_prefix_of(files.key_pem@),
        name@.is_prefix_of(files.trust_pem@),
        files.cert_pem@.skip(name@.len() as int) == "-cert.pem"@,
        files.key_pem@.skip(name@.len() as int) == "-key.pem"@,
        files.trust_pem@.skip(name@.len() as int) == "-trust.pem"@,
{
    let n = name@.len() as int;
    assert(files.cert_pem@.subrange(0, n) =~= name@);
    assert(files.key_pem@.subrange(0, n) =~= name@);
    assert(files.trust_pem@.subrange(0, n) =~= name@);
    assert(files.cert_pem@.skip(n) =~= "-cert.pem"@);
    assert(files.key_pem@.skip(n) =~= "-key.pem"@);
    assert(files.trust_pem@.skip(n) =~= "-trust.pem"@);
}

} // verus!
