//! Leased workers: renewal of their leases and the errors that end them.

use vstd::prelude::*;

use crate::ids::{PeerId, Uuid};
use crate::messages::api;
use crate::messages::executor::{JobSpec, WorkerSpec};
use crate::messages::renew_lease;
use crate::number::Double;
use crate::resources::Resources;
use crate::time::{Duration, SystemTime};

verus! {

#[derive(Clone, Debug)]
pub struct WorkerInfo {
    pub peer_id: PeerId,
    pub capabilities: WorkerSpec,
}

#[derive(Clone, Debug)]
pub struct Job {
    pub id: Uuid,
    pub spec: JobSpec,
}

#[derive(Clone, Debug)]
pub enum FailureReason {
    LeaseExpired,
    JobFailed(String),
    WorkerDisconnected,
}

#[derive(Clone, Debug)]
pub struct WorkerFailure {
    pub peer_id: PeerId,
    pub lease_id: Uuid,
    pub reason: FailureReason,
}

#[derive(Clone, Debug)]
pub enum WorkerError {
    Disconnected,
    DispatchFailed(String),
    LeaseExpired,
    NetworkError(String),
}

impl WorkerError {
    /// What the error says.
    pub open spec fn text(self) -> Seq<char> {
        match self {
            WorkerError::Disconnected => "Worker disconnected"@,
            WorkerError::DispatchFailed(reason) => "Job dispatch failed: "@ + reason@,
            WorkerError::LeaseExpired => "Lease expired"@,
            WorkerError::NetworkError(_) => "Network error"@,
        }
    }

    pub fn to_string(&self) -> (text: String)
        ensures
            text@ == self.text(),
    {
        match self {
            WorkerError::Disconnected => "Worker disconnected".to_owned(),
            WorkerError::DispatchFailed(reason) => "Job dispatch failed: ".to_owned().concat(
                reason.as_str(),
            ),
            WorkerError::LeaseExpired => "Lease expired".to_owned(),
            WorkerError::NetworkError(_) => "Network error".to_owned(),
        }
    }
}

/// A Worker handle that manages lease renewal and job dispatch
#[derive(Clone, Debug)]
pub struct Worker {
    lease_id: Uuid,
    peer_id: PeerId,
    spec: WorkerSpec,
    price: Double,
    resources: Resources,
}

/// What follows one attempt to renew a lease.
#[derive(Clone, Debug)]
pub enum LeaseStep {
    /// The lease holds: ask again after this time.
    RenewIn(Duration),
    /// The worker is lost.
    Stop(WorkerError),
}

/// The lease time that is left at `now`; six seconds where the lease ended before.
pub open spec fn lease_left(timeout: SystemTime, now: SystemTime) -> int {
    if timeout.nanos >= now.nanos {
        timeout.nanos - now.nanos
    } else {
        6 * crate::time::NANOS_PER_SEC
    }
}

/// Two thirds of `nanos`, rounded down before doubling.
pub open spec fn safe_wait(nanos: int) -> int {
    nanos / 3 * 2
}

impl LeaseStep {
    /// Whether this is the step that the worker's answer to a renewal calls for.
    pub open spec fn answers(self, reply: Result<api::Response, String>, now: SystemTime) -> bool {
        match reply {
            Ok(api::Response::RenewLease(renew_lease::Response::Renewed { id: _, timeout })) => {
                self matches LeaseStep::RenewIn(wait) && wait.nanos == safe_wait(
                    lease_left(timeout, now),
                )
            },
            Ok(api::Response::RenewLease(renew_lease::Response::Failed)) => {
                self == LeaseStep::Stop(WorkerError::LeaseExpired)
            },
            Err(error) => self == LeaseStep::Stop(WorkerError::NetworkError(error)),
            Ok(_) => {
                self matches LeaseStep::Stop(WorkerError::DispatchFailed(reason)) && reason@
                    == "Unexpected response"@
            },
        }
    }
}

impl Worker {
    pub closed spec fn lease(self) -> Uuid {
        self.lease_id
    }

    pub closed spec fn peer(self) -> PeerId {
        self.peer_id
    }

    /// What was asked of the worker.
    pub closed spec fn required(self) -> WorkerSpec {
        self.spec
    }

    /// What the worker offered.
    pub closed spec fn offered(self) -> Resources {
        self.resources
    }

    pub closed spec fn agreed_price(self) -> Double {
        self.price
    }

    pub fn create(
        lease_id: Uuid,
        peer_id: PeerId,
        spec: WorkerSpec,
        resources: Resources,
        price: Double,
    ) -> (worker: Worker)
        ensures
            worker.lease() == lease_id,
            worker.peer() == peer_id,
            worker.required() == spec,
            worker.offered() == resources,
            worker.agreed_price() == price,
    {
        Worker { lease_id, peer_id, spec, price, resources }
    }

    pub fn peer_id(&self) -> (peer_id: PeerId)
        ensures
            peer_id == self.peer(),
    {
        self.peer_id
    }

    pub fn lease_id(&self) -> (lease_id: Uuid)
        ensures
            lease_id == self.lease(),
    {
        self.lease_id
    }

    pub fn price(&self) -> (price: Double)
        ensures
            price == self.agreed_price(),
    {
        self.price
    }

    pub fn spec(&self) -> (spec: &WorkerSpec)
        ensures
            *spec == self.required(),
    {
        &self.spec
    }

    pub fn resources(&self) -> (resources: &Resources)
        ensures
            *resources == self.offered(),
    {
        &self.resources
    }

    /// The request that asks the worker to extend the lease.
    pub fn renewal(&self) -> (request: api::Request)
        ensures
            request == api::Request::RenewLease(renew_lease::Request { id: self.lease() }),
    {
        api::Request::RenewLease(renew_lease::Request { id: self.lease_id })
    }

    /// What to do after the worker's answer to a renewal, or the failure to get one.
    pub fn renewed(reply: Result<api::Response, String>, now: SystemTime) -> (step: LeaseStep)
        ensures
            step.answers(reply, now),
    {
        match reply {
            Ok(api::Response::RenewLease(renew_lease::Response::Renewed { id: _, timeout })) => {
                let left: Duration = match timeout.duration_since(now) {
                    Some(left) => left,
                    None => Duration::from_secs(6),
                };
                LeaseStep::RenewIn(Duration { nanos: left.nanos / 3 * 2 })
            },
            Ok(api::Response::RenewLease(renew_lease::Response::Failed)) => {
                LeaseStep::Stop(WorkerError::LeaseExpired)
            },
            Err(error) => LeaseStep::Stop(WorkerError::NetworkError(error)),
            Ok(_) => LeaseStep::Stop(
                WorkerError::DispatchFailed("Unexpected response".to_owned()),
            ),
        }
    }

    /// How a worker ended, given how its renewal loop ended: a loop that was torn down counts
    /// as a disconnected worker.
    pub fn exit(ended: Option<Result<(), WorkerError>>) -> (exit: Result<(), WorkerError>)
        ensures
            ended matches Some(outcome) ==> exit == outcome,
            ended is None ==> exit == Err::<(), WorkerError>(WorkerError::Disconnected),
    {
        match ended {
            Some(outcome) => outcome,
            None => Err(WorkerError::Disconnected),
        }
    }
}

/// A lease that still runs is renewed before it ends: the wait is at most two thirds of what
/// is left of it.
pub proof fn law_renewal_comes_before_the_lease_ends(
    step: LeaseStep,
    id: Uuid,
    timeout: SystemTime,
    now: SystemTime,
)
    requires
        timeout.nanos > now.nanos,
        step.answers(
            Ok(api::Response::RenewLease(renew_lease::Response::Renewed { id, timeout })),
            now,
        ),
    ensures
        step matches LeaseStep::RenewIn(wait) && now.nanos + wait.nanos < timeout.nanos && 3
            * wait.nanos <= 2 * (timeout.nanos - now.nanos),
{
}

/// A worker that renewed its lease is asked again when two thirds of what is left of it are over,
/// the thirds counted in whole nanoseconds: no later, and no sooner. Where the lease is over
/// already, it is asked again in four seconds.
pub proof fn law_renewals_are_two_thirds_apart(
    step: LeaseStep,
    id: Uuid,
    timeout: SystemTime,
    now: SystemTime,
)
    requires
        call_ensures(
            Worker::renewed,
            (Ok(api::Response::RenewLease(renew_lease::Response::Renewed { id, timeout })), now),
            step,
        ),
    ensures
        step is RenewIn,
        timeout.nanos >= now.nanos ==> {
            let left = timeout.nanos - now.nanos;
            let wait = step->RenewIn_0.nanos;
            3 * wait <= 2 * left < 3 * wait + 6 && wait % 2 == 0
        },
        timeout.nanos < now.nanos ==> step->RenewIn_0.nanos == 4_000_000_000,
{
}

/// A worker is lost exactly when it does not renew its lease, and for the reason that it gave: it
/// refused, it could not be reached, or it said something else.
pub proof fn law_leases_end_for_a_reason(
    step: LeaseStep,
    reply: Result<api::Response, String>,
    now: SystemTime,
)
    requires
        call_ensures(Worker::renewed, (reply, now), step),
    ensures
        step is RenewIn <==> (reply matches Ok(
            api::Response::RenewLease(renew_lease::Response::Renewed { .. }),
        )),
        step == LeaseStep::Stop(WorkerError::LeaseExpired) <==> reply == Ok::<
            api::Response,
            String,
        >(api::Response::RenewLease(renew_lease::Response::Failed)),
        reply is Err <==> (step matches LeaseStep::Stop(WorkerError::NetworkError(_))),
        step matches LeaseStep::Stop(WorkerError::NetworkError(error)) ==> reply == Err::<
            api::Response,
            String,
        >(error),
        (reply is Ok && !(reply->Ok_0 is RenewLease)) <==> (step matches LeaseStep::Stop(
            WorkerError::DispatchFailed(_),
        )),
        step matches LeaseStep::Stop(WorkerError::DispatchFailed(reason)) ==> reason@
            == "Unexpected response"@,
        !(step matches LeaseStep::Stop(WorkerError::Disconnected)),
{
}

/// The text of a failed dispatch gives the reason in full.
pub proof fn law_dispatch_failures_tell_why(reason: String, text: String)
    requires
        call_ensures(WorkerError::to_string, (&WorkerError::DispatchFailed(reason),), text),
    ensures
        ({
            let head = "Job dispatch failed: "@;
            text@.len() == head.len() + reason@.len() && text@.take(head.len() as int) == head
                && text@.skip(head.len() as int) == reason@
        }),
{
    let head = "Job dispatch failed: "@;
    assert(text@.take(head.len() as int) =~= head);
    assert(text@.skip(head.len() as int) =~= reason@);
}

/// A worker is what it was created as, and it is asked to renew the lease that it was created with.
pub proof fn law_workers_are_what_they_were_created_as(
    lease: Uuid,
    peer: PeerId,
    asked: WorkerSpec,
    resources: Resources,
    price: Double,
    worker: Worker,
    told: (PeerId, Uuid, Double, &WorkerSpec, &Resources),
    renewal: api::Request,
)
    requires
        call_ensures(Worker::create, (lease, peer, asked, resources, price), worker),
        call_ensures(Worker::peer_id, (&worker,), told.0),
        call_ensures(Worker::lease_id, (&worker,), told.1),
        call_ensures(Worker::price, (&worker,), told.2),
        call_ensures(Worker::spec, (&worker,), told.3),
        call_ensures(Worker::resources, (&worker,), told.4),
        call_ensures(Worker::renewal, (&worker,), renewal),
    ensures
        told.0 == peer,
        told.1 == lease,
        told.2 == price,
        *told.3 == asked,
        *told.4 == resources,
        renewal matches api::Request::RenewLease(request) && request.id == lease,
{
}

/// A worker ends as its renewals ended, and counts as disconnected where they were torn down.
pub proof fn law_workers_end_as_their_renewals(
    outcome: Result<(), WorkerError>,
    exit: Result<(), WorkerError>,
    torn_down: Result<(), WorkerError>,
)
    requires
        call_ensures(Worker::exit, (Some(outcome),), exit),
        call_ensures(Worker::exit, (None,), torn_down),
    ensures
        exit == outcome,
        torn_down matches Err(WorkerError::Disconnected),
{
}

} // verus!
