//! Tasks: a job as it is executed by one or more workers.

use vstd::prelude::*;

use crate::ids::{PeerId, Uuid};
use crate::messages::api;
use crate::messages::dispatch_job;
use crate::messages::executor::JobSpec;
use crate::messages::job_status;
use crate::messages::job_status::JobStatus;
use crate::worker::WorkerError;

verus! {

/// A task represents a task as it is being executed by one or multiple nodes.
/// During its lifetime, it provides a stream of status updates for the task, sent by these nodes.
#[derive(Clone, Debug)]
pub struct Task {
    id: Uuid,
}

/// Whether `reply` is how a worker acknowledges a dispatch.
pub open spec fn dispatched(reply: Result<api::Response, String>) -> bool {
    reply matches Ok(api::Response::DispatchJob(dispatch_job::Response::Dispatched { .. }))
}

/// Why a worker that gave `reply` did not take the job.
pub open spec fn refusal(reply: Result<api::Response, String>) -> Seq<char> {
    match reply {
        Ok(api::Response::DispatchJob(dispatch_job::Response::Failed)) => "Worker rejected job"@,
        Ok(_) => "Unexpected response type"@,
        Err(error) => "Network error: "@ + error@,
    }
}

/// The first of the replies that is no acknowledgement, as an index; their number if all are.
pub open spec fn first_refusal(replies: Seq<Result<api::Response, String>>) -> int
    decreases replies.len(),
{
    if replies.len() == 0 || !dispatched(replies[0]) {
        0
    } else {
        1 + first_refusal(replies.skip(1))
    }
}

/// The outcome of a dispatch to one worker.
pub fn dispatch_outcome(reply: &Result<api::Response, String>) -> (outcome: Result<
    (),
    WorkerError,
>)
    ensures
        outcome is Ok <==> dispatched(*reply),
        outcome matches Err(error) ==> error matches WorkerError::DispatchFailed(reason)
            && reason@ == refusal(*reply),
{
    match reply {
        Ok(api::Response::DispatchJob(dispatch_job::Response::Dispatched { .. })) => Ok(()),
        Ok(api::Response::DispatchJob(dispatch_job::Response::Failed)) => Err(
            WorkerError::DispatchFailed("Worker rejected job".to_owned()),
        ),
        Ok(_) => Err(WorkerError::DispatchFailed("Unexpected response type".to_owned())),
        Err(error) => Err(
            WorkerError::DispatchFailed("Network error: ".to_owned().concat(error.as_str())),
        ),
    }
}

/// Whether a request reports the status of the task `id`.
pub open spec fn concerns(id: Uuid, request: api::Request) -> bool {
    request matches api::Request::JobStatus(report) && report.task_id == id
}

/// The status that a request reports, with its sender, if it reports one.
pub open spec fn status_in(request: (PeerId, api::Request)) -> Option<(PeerId, JobStatus)> {
    match request.1 {
        api::Request::JobStatus(report) => Some((request.0, report.status)),
        _ => None,
    }
}

/// Whether a request reports the status of the task `id`.
pub fn accepts(id: Uuid, request: &api::Request) -> (accepted: bool)
    ensures
        accepted == concerns(id, *request),
{
    match request {
        api::Request::JobStatus(report) => report.task_id == id,
        _ => false,
    }
}

/// What to make of a request: the status to hand on, if it reports one, and the answer.
pub fn status_reported(request: (PeerId, api::Request)) -> (handled: (
    Option<(PeerId, JobStatus)>,
    api::Response,
))
    ensures
        handled.0 == status_in(request),
        handled.1 == api::Response::JobStatus((job_status::Response {  })),
{
    let (peer_id, request) = request;
    let status = match request {
        api::Request::JobStatus(report) => Some((peer_id, report.status)),
        _ => None,
    };
    (status, api::Response::JobStatus(job_status::Response {  }))
}

/// The request that dispatches the job to a worker as task `id`.
pub fn dispatch_request(id: Uuid, spec: JobSpec) -> (request: api::Request)
    ensures
        request == api::Request::DispatchJob((dispatch_job::Request { id, spec })),
{
    api::Request::DispatchJob(dispatch_job::Request { id, spec })
}

impl Task {
    /// The identifier of the task.
    pub closed spec fn identity(self) -> Uuid {
        self.id
    }

    /// Draws the identifier of a new task.
    pub fn new_id() -> (id: Uuid)
        ensures
            id.is_v4(),
    {
        Uuid::new_v4()
    }

    /// The task `id`, once each worker it was dispatched to has replied. The first reply that is
    /// no acknowledgement is why there is none.
    pub fn try_new(id: Uuid, replies: &Vec<Result<api::Response, String>>) -> (task: Result<
        Task,
        WorkerError,
    >)
        ensures
            task is Ok <==> first_refusal(replies@) == replies@.len(),
            task matches Ok(task) ==> task.identity() == id,
            task matches Err(error) ==> error matches WorkerError::DispatchFailed(reason)
                && reason@ == refusal(replies@[first_refusal(replies@)]),
    {
        assert(replies@.skip(0) =~= replies@);
        for i in 0..replies.len()
            invariant
                first_refusal(replies@) == i + first_refusal(replies@.skip(i as int)),
        {
            assert(replies@.skip(i as int)[0] == replies@[i as int]);
            assert(replies@.skip(i as int).skip(1) =~= replies@.skip(i + 1));
            match dispatch_outcome(&replies[i]) {
                Ok(()) => {},
                Err(error) => {
                    return Err(error);
                },
            }
        }
        Ok(Task { id })
    }

    pub fn id(&self) -> (id: Uuid)
        ensures
            id == self.identity(),
    {
        self.id
    }
}

/// A task comes about exactly when every worker acknowledged the dispatch; otherwise the replies
/// before the one that counts are all acknowledgements.
pub proof fn law_first_refusal_decides(replies: Seq<Result<api::Response, String>>)
    ensures
        0 <= first_refusal(replies) <= replies.len(),
        forall|i: int| 0 <= i < first_refusal(replies) ==> dispatched(#[trigger] replies[i]),
        first_refusal(replies) < replies.len() ==> !dispatched(replies[first_refusal(replies)]),
    decreases replies.len(),
{
    if replies.len() > 0 && dispatched(replies[0]) {
        let rest = replies.skip(1);
        law_first_refusal_decides(rest);
        assert forall|i: int| 0 <= i < first_refusal(replies) implies dispatched(
            #[trigger] replies[i],
        ) by {
            if i > 0 {
                assert(rest[i - 1] == replies[i]);
            }
        }
    }
}

/// The items that the task `id` yields once `requests` arrived one by one: each that is accepted is
/// handled, and the status in it is handed on.
pub open spec fn yielded(id: Uuid, requests: Seq<(PeerId, api::Request)>) -> Seq<
    (PeerId, JobStatus),
>
    decreases requests.len(),
{
    if requests.len() == 0 {
        Seq::empty()
    } else {
        let before = yielded(id, requests.drop_last());
        let request = requests.last();
        if concerns(id, request.1) {
            match status_in(request) {
                Some(item) => before.push(item),
                None => before,
            }
        } else {
            before
        }
    }
}

/// The status that a request reports about a task.
pub open spec fn reported_status(request: (PeerId, api::Request)) -> JobStatus {
    request.1->JobStatus_0.status
}

/// A task yields exactly the statuses that were reported about it, each with the peer that sent
/// it, in the order in which they arrived. Reports about other tasks and other requests never
/// show up.
pub proof fn law_task_yields_its_reports(id: Uuid, requests: Seq<(PeerId, api::Request)>)
    ensures
        yielded(id, requests) == requests.filter(
            |request: (PeerId, api::Request)|
                request.1 is JobStatus && request.1->JobStatus_0.task_id == id,
        ).map_values(
            |request: (PeerId, api::Request)| (request.0, request.1->JobStatus_0.status),
        ),
    decreases requests.len(),
{
    reveal(Seq::filter);
    let own = |request: (PeerId, api::Request)|
        request.1 is JobStatus && request.1->JobStatus_0.task_id == id;
    let item = |request: (PeerId, api::Request)| (request.0, request.1->JobStatus_0.status);
    if requests.len() > 0 {
        let rest = requests.drop_last();
        law_task_yields_its_reports(id, rest);
        if concerns(id, requests.last().1) {
            assert(requests.filter(own) == rest.filter(own).push(requests.last()));
            assert(requests.filter(own).map_values(item) =~= rest.filter(own).map_values(item).push(
                item(requests.last()),
            ));
        }
    } else {
        assert(requests.filter(own).map_values(item) =~= Seq::<(PeerId, JobStatus)>::empty());
    }
}

/// A worker took a job exactly when it said that it dispatched it. Else the outcome says why: the
/// worker refused, it said something else, or the network failed, with the reason in full.
pub proof fn law_dispatch_needs_an_acknowledgement(
    reply: Result<api::Response, String>,
    outcome: Result<(), WorkerError>,
)
    requires
        call_ensures(dispatch_outcome, (&reply,), outcome),
    ensures
        outcome is Ok <==> (reply matches Ok(
            api::Response::DispatchJob(dispatch_job::Response::Dispatched { .. }),
        )),
        reply == Ok::<api::Response, String>(
            api::Response::DispatchJob(dispatch_job::Response::Failed),
        ) ==> (outcome matches Err(WorkerError::DispatchFailed(reason)) && reason@
            == "Worker rejected job"@),
        reply is Ok && !(reply->Ok_0 is DispatchJob) ==> (outcome matches Err(
            WorkerError::DispatchFailed(reason),
        ) && reason@ == "Unexpected response type"@),
        reply is Err ==> (outcome matches Err(WorkerError::DispatchFailed(reason)) && reason@
            == "Network error: "@ + reply->Err_0@),
{
}

/// A task comes about exactly when every worker said that it dispatched the job. Else the first
/// worker that did not say so is why there is none.
pub proof fn law_tasks_need_every_worker(
    id: Uuid,
    replies: &Vec<Result<api::Response, String>>,
    task: Result<Task, WorkerError>,
    first: int,
)
    requires
        call_ensures(Task::try_new, (id, replies), task),
        0 <= first <= replies@.len(),
        forall|i: int|
            0 <= i < first ==> ((#[trigger] replies@[i]) matches Ok(
                api::Response::DispatchJob(dispatch_job::Response::Dispatched { .. }),
            )),
    ensures
        first == replies@.len() ==> (task matches Ok(task) && task.identity() == id),
        first < replies@.len() && !(replies@[first] matches Ok(
            api::Response::DispatchJob(dispatch_job::Response::Dispatched { .. }),
        )) ==> (task matches Err(WorkerError::DispatchFailed(reason)) && reason@ == (
        match replies@[first] {
            Err(error) => "Network error: "@ + error@,
            Ok(api::Response::DispatchJob(_)) => "Worker rejected job"@,
            Ok(_) => "Unexpected response type"@,
        })),
{
    law_first_refusal_decides(replies@);
    let at = first_refusal(replies@);
    if at < first {
        assert(dispatched(replies@[at]));
    }
    if at > first {
        assert(dispatched(replies@[first]));
    }
}

/// A request is about a task exactly when it reports the status of that task, and what is handed
/// on of it is that status with the peer that sent it. Whoever reports is answered that the report
/// arrived.
pub proof fn law_reports_are_handed_on(
    id: Uuid,
    peer: PeerId,
    request: api::Request,
    accepted: bool,
    handled: (Option<(PeerId, JobStatus)>, api::Response),
)
    requires
        call_ensures(accepts, (id, &request), accepted),
        call_ensures(status_reported, ((peer, request),), handled),
    ensures
        accepted <==> request is JobStatus && request->JobStatus_0.task_id == id,
        request is JobStatus ==> handled.0 == Some((peer, request->JobStatus_0.status)),
        !(request is JobStatus) ==> handled.0 is None,
        handled.1 is JobStatus,
{
}

/// A job is dispatched as it is, under the identifier of its task.
pub proof fn law_jobs_are_dispatched_as_they_are(id: Uuid, spec: JobSpec, request: api::Request)
    requires
        call_ensures(dispatch_request, (id, spec), request),
    ensures
        request matches api::Request::DispatchJob(dispatch) && dispatch.id == id && dispatch.spec
            == spec,
{
}

/// A task is known by the identifier that it was made with.
pub proof fn law_tasks_keep_their_identifier(
    id: Uuid,
    replies: &Vec<Result<api::Response, String>>,
    task: Task,
    told: Uuid,
)
    requires
        call_ensures(Task::try_new, (id, replies), Ok(task)),
        call_ensures(Task::id, (&task,), told),
    ensures
        told == id,
{
}

} // verus!
