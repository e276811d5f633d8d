//! The protocols that a scheduler speaks, and what is said when its network cannot be built.

use vstd::prelude::*;

use crate::messages::action;
use crate::messages::api;
use crate::messages::health;
use crate::messages::progress;

verus! {

/// The protocol by which peers identify themselves.
pub const IDENTIFY_PROTOCOL: &'static str = "/hypha-identify/0.0.1";

/// How many actions may wait for the network driver.
pub const ACTION_QUEUE: usize = 5;

/// A protocol of requests and responses.
#[derive(Clone, Copy, Debug, PartialEq, Eq, Structural)]
pub enum Service {
    Api,
    Health,
    Progress,
    Action,
}

/// Which side of a protocol a node takes.
#[derive(Clone, Copy, Debug, PartialEq, Eq, Structural)]
pub enum Support {
    /// Sends requests and answers them.
    Full,
    /// Sends requests only.
    Outbound,
}

impl Service {
    /// The name by which peers agree on the protocol.
    pub open spec fn protocol(self) -> Seq<char> {
        match self {
            Service::Api => api::IDENTIFIER@,
            Service::Health => health::IDENTIFIER@,
            Service::Progress => progress::IDENTIFIER@,
            Service::Action => action::IDENTIFIER@,
        }
    }

    /// The name by which peers agree on the protocol.
    pub fn identifier(self) -> (identifier: &'static str)
        ensures
            identifier@ == self.protocol(),
    {
        match self {
            Service::Api => api::IDENTIFIER,
            Service::Health => health::IDENTIFIER,
            Service::Progress => progress::IDENTIFIER,
            Service::Action => action::IDENTIFIER,
        }
    }

    /// The side that a scheduler takes: it asks for the health of others, and nobody asks for
    /// its own.
    pub fn support(self) -> (support: Support)
        ensures
            support == if self == Service::Health {
                Support::Outbound
            } else {
                Support::Full
            },
    {
        match self {
            Service::Health => Support::Outbound,
            Service::Api | Service::Progress | Service::Action => Support::Full,
        }
    }
}

/// A stage of building the network that can fail.
#[derive(Clone, Copy, Debug, PartialEq, Eq, Structural)]
pub enum BuildStage {
    Tcp,
    Dns,
    RelayClient,
    Behaviour,
}

/// Why a network could not be built.
#[derive(Clone, Debug)]
pub enum SwarmError {
    TransportConfig(String),
    BehaviourCreation(String),
}

impl SwarmError {
    /// Whether this is the error of the stage `stage`.
    pub open spec fn tells(self, stage: BuildStage) -> bool {
        match stage {
            BuildStage::Tcp => self matches SwarmError::TransportConfig(text) && text@
                == "Failed to create TCP transport with mTLS."@,
            BuildStage::Dns => self matches SwarmError::TransportConfig(text) && text@
                == "Failed to setup DNS"@,
            BuildStage::RelayClient => self matches SwarmError::TransportConfig(text) && text@
                == "Failed to create relay client with mTLS."@,
            BuildStage::Behaviour => self matches SwarmError::BehaviourCreation(text) && text@
                == "Failed to create swarm behavior."@,
        }
    }

    /// The error of a stage that failed.
    pub fn at(stage: BuildStage) -> (error: SwarmError)
        ensures
            error.tells(stage),
    {
        match stage {
            BuildStage::Tcp => SwarmError::TransportConfig(
                "Failed to create TCP transport with mTLS.".to_owned(),
            ),
            BuildStage::Dns => SwarmError::TransportConfig("Failed to setup DNS".to_owned()),
            BuildStage::RelayClient => SwarmError::TransportConfig(
                "Failed to create relay client with mTLS.".to_owned(),
            ),
            BuildStage::Behaviour => SwarmError::BehaviourCreation(
                "Failed to create swarm behavior.".to_owned(),
            ),
        }
    }
}

/// No two services share a protocol, so no request reaches the wrong one.
pub proof fn law_protocols_differ(first: Service, second: Service)
    ensures
        first.protocol() == second.protocol() ==> first == second,
{
    reveal_strlit("/hypha-api/0.0.1");
    reveal_strlit("/hypha-health/0.0.1");
    reveal_strlit("/hypha-progress/0.0.1");
    reveal_strlit("/hypha-action/0.0.1");
    assert(Service::Api.protocol().len() == 16);
    assert(Service::Progress.protocol().len() == 21);
    assert(Service::Health.protocol()[7] == 'h');
    assert(Service::Action.protocol()[7] == 'a');
}

/// Services are agreed on by different names, each of which is one of this network. A scheduler
/// answers on all of them but on the one for health.
pub proof fn law_services_are_told_apart(
    first: Service,
    second: Service,
    names: (&'static str, &'static str),
    support: Support,
)
    requires
        call_ensures(Service::identifier, (first,), names.0),
        call_ensures(Service::identifier, (second,), names.1),
        call_ensures(Service::support, (first,), support),
    ensures
        names.0@ == names.1@ ==> first == second,
        "/hypha-"@.is_prefix_of(names.0@),
        support is Outbound <==> first is Health,
{
    law_protocols_differ(first, second);
    reveal_strlit("/hypha-");
    reveal_strlit("/hypha-api/0.0.1");
    reveal_strlit("/hypha-health/0.0.1");
    reveal_strlit("/hypha-progress/0.0.1");
    reveal_strlit("/hypha-action/0.0.1");
    assert("/hypha-"@.len() == 7);
    assert(names.0@.subrange(0, 7) =~= "/hypha-"@);
}

/// The error of a stage tells whether the transport or the behaviour could not be built, and each
/// stage has a text of its own.
pub proof fn law_build_errors_tell_the_stage(
    first: BuildStage,
    second: BuildStage,
    error: SwarmError,
    other: SwarmError,
)
    requires
        call_ensures(SwarmError::at, (first,), error),
        call_ensures(SwarmError::at, (second,), other),
    ensures
        error is BehaviourCreation <==> first is Behaviour,
        error == other ==> first == second,
{
    reveal_strlit("Failed to create TCP transport with mTLS.");
    reveal_strlit("Failed to setup DNS");
    reveal_strlit("Failed to create relay client with mTLS.");
    assert("Failed to create TCP transport with mTLS."@.len() == 41);
    assert("Failed to setup DNS"@.len() == 19);
    assert("Failed to create relay client with mTLS."@.len() == 40);
}

} // verus!
