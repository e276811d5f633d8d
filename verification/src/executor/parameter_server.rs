//! The parameter server: averages the updates of all workers, optimizes, and sends the result
//! back to them.

use vstd::prelude::*;

use crate::digest::{file_name, file_named, is_digest_name, is_upper_digit};
use crate::ids::{hyphenated, Uuid};
use crate::messages::action::{ActionRequest, AggregateStatus, ExecutorStatus};
use crate::messages::executor::{AggregateExecutorConfig, Executor, JobSpec, Nesterov};
use crate::number::Double;

verus! {

/// Why a job is not executed.
#[derive(Clone, Copy, Debug, PartialEq, Eq, Structural)]
pub enum ExecutorError {
    UnsupportedJobSpec,
}

/// Why tensors could not be combined.
#[derive(Clone, Debug)]
pub enum TensorOpError {
    Candle(String),
    Safetensor(String),
    Io(String),
}

impl TensorOpError {
    /// What the error says.
    pub open spec fn text(self) -> Seq<char> {
        match self {
            TensorOpError::Candle(error) => "Candle core error: "@ + error@,
            TensorOpError::Safetensor(error) => "Safetensors error: "@ + error@,
            TensorOpError::Io(error) => "I/O error: "@ + error@,
        }
    }

    pub fn to_string(&self) -> (text: String)
        ensures
            text@ == self.text(),
    {
        match self {
            TensorOpError::Candle(error) => "Candle core error: ".to_owned().concat(error.as_str()),
            TensorOpError::Safetensor(error) => "Safetensors error: ".to_owned().concat(
                error.as_str(),
            ),
            TensorOpError::Io(error) => "I/O error: ".to_owned().concat(error.as_str()),
        }
    }
}

/// The configuration that a parameter server runs a job with: it runs aggregations only.
pub fn aggregation_of(job: &JobSpec) -> (config: Result<&AggregateExecutorConfig, ExecutorError>)
    ensures
        match job.executor {
            Executor::Aggregate(executor) => config matches Ok(config) && *config
                == executor.configuration(),
            Executor::Train(_) => config matches Err(error) && error
                == ExecutorError::UnsupportedJobSpec,
        },
{
    match &job.executor {
        Executor::Aggregate(executor) => Ok(executor.config()),
        Executor::Train(_) => Err(ExecutorError::UnsupportedJobSpec),
    }
}

/// The directory that a job works in.
pub fn work_dir_name(id: Uuid) -> (name: String)
    ensures
        name@ == "hypha-"@ + hyphenated(id.bits),
{
    "hypha-".to_owned().concat(id.to_string().as_str())
}

/// How many received updates may wait to be averaged.
pub fn backlog(workers: usize) -> (capacity: usize)
    requires
        workers <= usize::MAX / 2,
    ensures
        capacity == if workers == 0 {
            2
        } else {
            2 * workers
        },
{
    if workers == 0 {
        2
    } else {
        workers * 2
    }
}

/// The permissions of a received update: read and write for the owner.
pub const UPDATE_FILE_MODE: u32 = 0o600;

/// What to do next about an update that a worker sends.
#[derive(Clone, Copy, Debug, PartialEq, Eq, Structural)]
pub enum IntakeStep {
    /// Create the file.
    Create,
    /// Write the update to the file, to the last byte.
    Write,
    /// Remove the file.
    Discard,
    /// Set the permissions of the file.
    Restrict,
    /// Hand the file on to be averaged.
    Announce,
    Done,
}

impl IntakeStep {
    /// The step after this one, given whether this one succeeded.
    pub open spec fn after(self, succeeded: bool) -> IntakeStep {
        match (self, succeeded) {
            (IntakeStep::Create, true) => IntakeStep::Write,
            (IntakeStep::Write, true) => IntakeStep::Restrict,
            (IntakeStep::Write, false) => IntakeStep::Discard,
            (IntakeStep::Restrict, _) => IntakeStep::Announce,
            _ => IntakeStep::Done,
        }
    }

    /// The step after this one, given whether this one succeeded.
    pub fn next(self, succeeded: bool) -> (step: IntakeStep)
        ensures
            step == self.after(succeeded),
    {
        match self {
            IntakeStep::Create => if succeeded {
                IntakeStep::Write
            } else {
                IntakeStep::Done
            },
            IntakeStep::Write => if succeeded {
                IntakeStep::Restrict
            } else {
                IntakeStep::Discard
            },
            IntakeStep::Restrict => IntakeStep::Announce,
            IntakeStep::Discard | IntakeStep::Announce | IntakeStep::Done => IntakeStep::Done,
        }
    }
}

/// How to take an update into the average.
#[derive(Debug)]
pub enum Merge {
    /// It is the first: its file is the average so far.
    Adopt,
    /// Average the file `update` with the file `with` into the file `into`.
    Average { update: String, with: String, into: String },
}

/// What a received update calls for: `merge`, and, where it was the last that was missing, to
/// finish the round with the file `finished`.
#[derive(Debug)]
pub struct Received {
    pub merge: Merge,
    pub finished: Option<String>,
}

/// How far the averaging of a round has come.
#[derive(Debug)]
pub struct Aggregation {
    workers: usize,
    average: Option<String>,
    received: usize,
}

/// The state of an [`Aggregation`].
pub struct AggregationView {
    /// Updates that make up a round.
    pub workers: nat,
    /// The file that holds the average so far.
    pub average: Option<Seq<char>>,
    /// Updates that are in it.
    pub received: nat,
}

impl View for Aggregation {
    type V = AggregationView;

    closed spec fn view(&self) -> AggregationView {
        AggregationView {
            workers: self.workers as nat,
            average: match self.average {
                Some(file) => Some(file@),
                None => None,
            },
            received: self.received as nat,
        }
    }
}

/// The name of an average of several updates.
pub open spec fn joined_name(id: Uuid) -> Seq<char> {
    "joined_"@ + hyphenated(id.bits)
}

impl AggregationView {
    /// A round without updates.
    pub open spec fn start(workers: nat) -> AggregationView {
        AggregationView { workers, average: None, received: 0 }
    }

    /// The file with the average once the update in `update` is in it, where `joined` is the
    /// name for an average of several.
    pub open spec fn average_with(self, update: Seq<char>, joined: Seq<char>) -> Seq<char> {
        if self.average is None {
            update
        } else {
            joined
        }
    }

    /// Whether the next update is the last one of the round.
    pub open spec fn lacks_one(self) -> bool {
        self.received + 1 == self.workers
    }

    /// The state once the update in `update` was averaged.
    pub open spec fn after(self, update: Seq<char>, joined: Seq<char>) -> AggregationView {
        if self.lacks_one() {
            AggregationView::start(self.workers)
        } else {
            AggregationView {
                average: Some(self.average_with(update, joined)),
                received: if self.workers == 0 {
                    0
                } else {
                    self.received + 1
                },
                ..self
            }
        }
    }
}

impl Received {
    /// Whether this is what the update in `update` calls for in the state `before`, where
    /// `joined` is the name for an average of several.
    pub open spec fn follows(
        self,
        before: AggregationView,
        update: Seq<char>,
        joined: Seq<char>,
    ) -> bool {
        &&& match before.average {
            None => self.merge is Adopt,
            Some(file) => {
                &&& self.merge matches Merge::Average { update: first, with, into }
                &&& first@ == update
                &&& with@ == file
                &&& into@ == joined
            },
        }
        &&& self.finished is Some <==> before.lacks_one()
        &&& self.finished matches Some(file) ==> file@ == before.average_with(update, joined)
    }
}

impl Aggregation {
    #[verifier::type_invariant]
    closed spec fn incomplete(self) -> bool {
        self.received < self.workers || (self.workers == 0 && self.received == 0)
    }

    /// Averages the updates of `workers` workers per round. Without workers no round is ever
    /// complete.
    pub fn new(workers: usize) -> (aggregation: Aggregation)
        ensures
            aggregation@ == AggregationView::start(workers as nat),
    {
        Aggregation { workers, average: None, received: 0 }
    }

    /// Takes note of an update in the file `update`. An average of several is kept in a file
    /// named after `id`.
    pub fn receive_as(&mut self, update: String, id: Uuid) -> (received: Received)
        ensures
            final(self)@ == old(self)@.after(update@, joined_name(id)),
            received.follows(old(self)@, update@, joined_name(id)),
    {
        proof {
            use_type_invariant(&*self);
        }
        let workers: usize = self.workers;
        let count: usize = self.received;
        let mut average: Option<String> = None;
        std::mem::swap(&mut average, &mut self.average);
        let (file, merge) = match average {
            None => (update, Merge::Adopt),
            Some(with) => {
                let joined = "joined_".to_owned().concat(id.to_string().as_str());
                (joined.clone(), Merge::Average { update, with, into: joined })
            },
        };
        if workers > 0 && count + 1 == workers {
            *self = Aggregation { workers, average: None, received: 0 };
            Received { merge, finished: Some(file) }
        } else {
            let received: usize = if workers == 0 {
                0
            } else {
                count + 1
            };
            *self = Aggregation { workers, average: Some(file), received };
            Received { merge, finished: None }
        }
    }

    /// Takes note of an update in the file `update`. An average of several is kept in a file
    /// with a new name.
    pub fn receive(&mut self, update: String) -> (received: Received)
        ensures
            exists|id: Uuid| #[trigger]
                id.is_v4() && final(self)@ == old(self)@.after(update@, joined_name(id))
                    && received.follows(old(self)@, update@, joined_name(id)),
    {
        let id = Uuid::new_v4();
        self.receive_as(update, id)
    }
}

/// The file that holds the average of a finished round.
pub const AVERAGE_FILE: &'static str = "avg-final";

/// The file that holds the momentum from one round to the next.
pub const MOMENTUM_FILE: &'static str = "momentum";

/// The file that holds the momentum of a round until it replaces the one before.
pub const MOMENTUM_UPDATE_FILE: &'static str = "momentum_update";

/// The file that holds what is sent to the workers.
pub const GRADIENT_FILE: &'static str = "gradient_update";

/// The directory that holds the results for single tensors while two files are combined. It is
/// created before the first result and deleted with all of them after the last.
pub const TENSOR_DIR: &'static str = "tensors";

/// What two tensors are combined to.
#[derive(Clone, Copy, Debug, PartialEq, Eq, Structural)]
pub enum TensorOp {
    /// `(a + b) / 2`
    Average,
    /// `momentum * b + a`
    Momentum { momentum: Double },
    /// `learning_rate * (momentum * b + a)`
    Nesterov { momentum: Double, learning_rate: Double },
}

/// One step of finishing a round.
#[derive(Debug)]
pub enum Step {
    Rename { from: String, to: String },
    Copy { from: String, to: String },
    /// Combine each tensor of the file `first` with the one of the same name of `second`.
    Combine { op: TensorOp, first: String, second: String, into: String },
    /// Send the file to all workers.
    Send { file: String },
    Remove { file: String },
    /// Report to the scheduler.
    Report { request: ActionRequest },
}

/// A [`Step`] with its names as sequences of characters.
pub enum StepView {
    Rename { from: Seq<char>, to: Seq<char> },
    Copy { from: Seq<char>, to: Seq<char> },
    Combine { op: TensorOp, first: Seq<char>, second: Seq<char>, into: Seq<char> },
    Send { file: Seq<char> },
    Remove { file: Seq<char> },
    Report { request: ActionRequest },
}

impl View for Step {
    type V = StepView;

    open spec fn view(&self) -> StepView {
        match *self {
            Step::Rename { from, to } => StepView::Rename { from: from@, to: to@ },
            Step::Copy { from, to } => StepView::Copy { from: from@, to: to@ },
            Step::Combine { op, first, second, into } => StepView::Combine {
                op,
                first: first@,
                second: second@,
                into: into@,
            },
            Step::Send { file } => StepView::Send { file: file@ },
            Step::Remove { file } => StepView::Remove { file: file@ },
            Step::Report { request } => StepView::Report { request },
        }
    }
}

/// The steps with their names as sequences of characters.
pub open spec fn step_views(steps: Seq<Step>) -> Seq<StepView> {
    steps.map_values(|step: Step| step@)
}

/// Updates the momentum with the file `gradient`: in the first round it is the gradient itself.
pub open spec fn momentum_steps(
    gradient: Seq<char>,
    has_momentum: bool,
    momentum: Double,
) -> Seq<StepView> {
    if has_momentum {
        seq![
            StepView::Combine {
                op: TensorOp::Momentum { momentum },
                first: gradient,
                second: MOMENTUM_FILE@,
                into: MOMENTUM_UPDATE_FILE@,
            },
            StepView::Copy { from: MOMENTUM_UPDATE_FILE@, to: MOMENTUM_FILE@ },
        ]
    } else {
        seq![StepView::Copy { from: gradient, to: MOMENTUM_FILE@ }]
    }
}

/// Optimizes with the file `gradient` and with the momentum of this round, and leaves the result
/// in the file for the workers.
pub open spec fn nesterov_steps(
    gradient: Seq<char>,
    has_momentum: bool,
    optimizer: Nesterov,
) -> Seq<StepView> {
    momentum_steps(gradient, has_momentum, optimizer.momentum).push(
        StepView::Combine {
            op: TensorOp::Nesterov {
                momentum: optimizer.momentum,
                learning_rate: optimizer.learning_rate,
            },
            first: gradient,
            second: MOMENTUM_FILE@,
            into: GRADIENT_FILE@,
        },
    )
}

/// The report that the result of a round was sent.
pub open spec fn round_report(job_id: Uuid) -> ActionRequest {
    ActionRequest {
        job_id,
        status: ExecutorStatus::Aggregate(AggregateStatus::BroadcastedUpdate { metrics: None }),
    }
}

/// Finishes a round whose average is in the file `average`: the file is renamed first, so that its
/// name can be taken by an update of the next round while the result is still being sent.
pub open spec fn finishing_steps(
    average: Seq<char>,
    has_momentum: bool,
    optimizer: Nesterov,
    job_id: Uuid,
) -> Seq<StepView> {
    seq![StepView::Rename { from: average, to: AVERAGE_FILE@ }] + nesterov_steps(
        AVERAGE_FILE@,
        has_momentum,
        optimizer,
    ) + seq![
        StepView::Send { file: GRADIENT_FILE@ },
        StepView::Remove { file: GRADIENT_FILE@ },
        StepView::Remove { file: AVERAGE_FILE@ },
        StepView::Report { request: round_report(job_id) },
    ]
}

/// Updates the momentum with the file `gradient`; `has_momentum` says whether there is one from
/// an earlier round.
pub fn update_momentum(gradient: &str, has_momentum: bool, momentum: Double) -> (steps: Vec<Step>)
    ensures
        step_views(steps@) == momentum_steps(gradient@, has_momentum, momentum),
{
    let mut steps: Vec<Step> = Vec::new();
    if has_momentum {
        steps.push(
            Step::Combine {
                op: TensorOp::Momentum { momentum },
                first: gradient.to_owned(),
                second: MOMENTUM_FILE.to_owned(),
                into: MOMENTUM_UPDATE_FILE.to_owned(),
            },
        );
        steps.push(
            Step::Copy { from: MOMENTUM_UPDATE_FILE.to_owned(), to: MOMENTUM_FILE.to_owned() },
        );
    } else {
        steps.push(Step::Copy { from: gradient.to_owned(), to: MOMENTUM_FILE.to_owned() });
    }
    assert(step_views(steps@) =~= momentum_steps(gradient@, has_momentum, momentum));
    steps
}

/// Optimizes with the file `gradient`; `has_momentum` says whether there is a momentum from an
/// earlier round.
pub fn nesterov(gradient: &str, has_momentum: bool, optimizer: Nesterov) -> (steps: Vec<Step>)
    ensures
        step_views(steps@) == nesterov_steps(gradient@, has_momentum, optimizer),
{
    let mut steps: Vec<Step> = update_momentum(gradient, has_momentum, optimizer.momentum);
    steps.push(
        Step::Combine {
            op: TensorOp::Nesterov {
                momentum: optimizer.momentum,
                learning_rate: optimizer.learning_rate,
            },
            first: gradient.to_owned(),
            second: MOMENTUM_FILE.to_owned(),
            into: GRADIENT_FILE.to_owned(),
        },
    );
    assert(step_views(steps@) =~= nesterov_steps(gradient@, has_momentum, optimizer));
    steps
}

/// Finishes a round whose average is in the file `average`.
pub fn finish_round(
    average: String,
    has_momentum: bool,
    optimizer: Nesterov,
    job_id: Uuid,
) -> (steps: Vec<Step>)
    ensures
        step_views(steps@) == finishing_steps(average@, has_momentum, optimizer, job_id),
{
    let mut steps: Vec<Step> = Vec::new();
    steps.push(Step::Rename { from: average, to: AVERAGE_FILE.to_owned() });
    let mut optimizing: Vec<Step> = nesterov(AVERAGE_FILE, has_momentum, optimizer);
    steps.append(&mut optimizing);
    steps.push(Step::Send { file: GRADIENT_FILE.to_owned() });
    steps.push(Step::Remove { file: GRADIENT_FILE.to_owned() });
    steps.push(Step::Remove { file: AVERAGE_FILE.to_owned() });
    let request = ActionRequest {
        job_id,
        status: ExecutorStatus::Aggregate(AggregateStatus::BroadcastedUpdate { metrics: None }),
    };
    steps.push(Step::Report { request });
    assert(step_views(steps@) =~= finishing_steps(average@, has_momentum, optimizer, job_id));
    steps
}

/// Whether the path lies in the directory for single tensors.
pub open spec fn in_tensor_dir(path: Seq<char>) -> bool {
    (TENSOR_DIR@ + "/"@).is_prefix_of(path)
}

/// The path of the result for the tensor `name`.
pub open spec fn tensor_file(name: Seq<char>) -> Seq<char> {
    TENSOR_DIR@ + "/"@ + file_named(name)
}

/// Pairs the tensors of two files by name. The result for each pair goes to a file of its own, in
/// the directory for single tensors, so that no more than one pair is in memory.
#[derive(Debug)]
pub struct TensorMerge {
    files: Vec<String>,
}

impl View for TensorMerge {
    type V = Seq<Seq<char>>;

    /// The files of the results so far.
    closed spec fn view(&self) -> Seq<Seq<char>> {
        crate::text::texts(self.files@)
    }
}

impl TensorMerge {
    pub fn new() -> (merge: TensorMerge)
        ensures
            merge@ == Seq::<Seq<char>>::empty(),
    {
        let merge = TensorMerge { files: Vec::new() };
        assert(merge@ =~= Seq::<Seq<char>>::empty());
        merge
    }

    /// Takes note of a tensor of the first file. If the second file has it too, the result of
    /// combining them goes to the file that is returned; if not, the tensor is skipped.
    pub fn pair(&mut self, name: &str, in_second: bool) -> (file: Option<String>)
        ensures
            in_second ==> (file matches Some(file) && file@ == tensor_file(name@)),
            in_second ==> final(self)@ == old(self)@.push(tensor_file(name@)),
            !in_second ==> file is None && final(self)@ == old(self)@,
    {
        if in_second {
            let file = TENSOR_DIR.to_owned().concat("/").concat(file_name(name).as_str());
            self.files.push(file.clone());
            assert(self@ =~= old(self)@.push(tensor_file(name@)));
            Some(file)
        } else {
            None
        }
    }

    /// The files to write to the output, or nothing where no tensor was in both files: then no
    /// output is written.
    pub fn finish(self) -> (files: Option<Vec<String>>)
        ensures
            self@.len() == 0 ==> files is None,
            self@.len() > 0 ==> (files matches Some(files) && crate::text::texts(files@) == self@),
    {
        if self.files.len() == 0 {
            None
        } else {
            Some(self.files)
        }
    }
}

/// Files by their names, what was sent to the workers, and what was reported to the scheduler.
#[verifier::ext_equal]
pub struct Store<A> {
    pub files: Map<Seq<char>, A>,
    pub sent: Seq<A>,
    pub reports: Seq<ActionRequest>,
}

/// What a step does to the store, where `apply` says what two files are combined to. The results
/// for single tensors are not in it: they are gone when the step is done.
pub open spec fn performed<A>(
    store: Store<A>,
    step: StepView,
    apply: spec_fn(TensorOp, A, A) -> A,
) -> Store<A> {
    let files = store.files;
    match step {
        StepView::Rename { from, to } => Store {
            files: files.remove(from).insert(to, files[from]),
            ..store
        },
        StepView::Copy { from, to } => Store { files: files.insert(to, files[from]), ..store },
        StepView::Combine { op, first, second, into } => Store {
            files: files.insert(into, apply(op, files[first], files[second])),
            ..store
        },
        StepView::Send { file } => Store { sent: store.sent.push(files[file]), ..store },
        StepView::Remove { file } => Store { files: files.remove(file), ..store },
        StepView::Report { request } => Store { reports: store.reports.push(request), ..store },
    }
}

/// What all the steps together do to the store.
pub open spec fn performed_all<A>(
    store: Store<A>,
    steps: Seq<StepView>,
    apply: spec_fn(TensorOp, A, A) -> A,
) -> Store<A>
    decreases steps.len(),
{
    if steps.len() == 0 {
        store
    } else {
        performed(performed_all(store, steps.drop_last(), apply), steps.last(), apply)
    }
}

/// The momentum of a round with the average `gradient`.
pub open spec fn momentum_after<A>(
    files: Map<Seq<char>, A>,
    gradient: A,
    momentum: Double,
    apply: spec_fn(TensorOp, A, A) -> A,
) -> A {
    if files.dom().contains(MOMENTUM_FILE@) {
        apply(TensorOp::Momentum { momentum }, gradient, files[MOMENTUM_FILE@])
    } else {
        gradient
    }
}

/// Whether the file is one of those that a parameter server keeps for itself.
pub open spec fn is_reserved(file: Seq<char>) -> bool {
    file == AVERAGE_FILE@ || file == MOMENTUM_FILE@ || file == MOMENTUM_UPDATE_FILE@ || file
        == GRADIENT_FILE@
}

proof fn lemma_reserved_names_differ()
    ensures
        AVERAGE_FILE@ != MOMENTUM_FILE@,
        AVERAGE_FILE@ != MOMENTUM_UPDATE_FILE@,
        AVERAGE_FILE@ != GRADIENT_FILE@,
        MOMENTUM_FILE@ != MOMENTUM_UPDATE_FILE@,
        MOMENTUM_FILE@ != GRADIENT_FILE@,
        MOMENTUM_UPDATE_FILE@ != GRADIENT_FILE@,
{
    reveal_strlit("avg-final");
    reveal_strlit("momentum");
    reveal_strlit("momentum_update");
    reveal_strlit("gradient_update");
    assert(AVERAGE_FILE@.len() == 9);
    assert(MOMENTUM_FILE@.len() == 8);
    assert(MOMENTUM_UPDATE_FILE@.len() == 15);
    assert(MOMENTUM_UPDATE_FILE@[0] == 'm');
    assert(GRADIENT_FILE@[0] == 'g');
}

/// The file with the momentum is none of those that are gone when a round is finished.
pub(crate) proof fn lemma_momentum_is_kept()
    ensures
        MOMENTUM_FILE@ != AVERAGE_FILE@,
        MOMENTUM_FILE@ != GRADIENT_FILE@,
{
    lemma_reserved_names_differ();
}

proof fn lemma_steps_in_two_parts<A>(
    store: Store<A>,
    first: Seq<StepView>,
    second: Seq<StepView>,
    apply: spec_fn(TensorOp, A, A) -> A,
)
    ensures
        performed_all(store, first + second, apply) == performed_all(
            performed_all(store, first, apply),
            second,
            apply,
        ),
    decreases second.len(),
{
    if second.len() == 0 {
        assert(first + second =~= first);
    } else {
        assert((first + second).drop_last() =~= first + second.drop_last());
        lemma_steps_in_two_parts(store, first, second.drop_last(), apply);
    }
}

proof fn lemma_one_step<A>(
    store: Store<A>,
    step: StepView,
    apply: spec_fn(TensorOp, A, A) -> A,
)
    ensures
        performed_all(store, seq![step], apply) == performed(store, step, apply),
{
    reveal_with_fuel(performed_all, 2);
    assert(seq![step].drop_last() =~= Seq::<StepView>::empty());
}

/// Optimizing with `gradient` leaves in the file for the workers what the Nesterov step makes of
/// the gradient and of the momentum of this round, keeps that momentum for the next round, and
/// touches no other file.
pub proof fn law_nesterov_result<A>(
    store: Store<A>,
    gradient: Seq<char>,
    optimizer: Nesterov,
    apply: spec_fn(TensorOp, A, A) -> A,
)
    requires
        store.files.dom().contains(gradient),
        gradient != MOMENTUM_FILE@,
        gradient != MOMENTUM_UPDATE_FILE@,
    ensures
        ({
            let has_momentum = store.files.dom().contains(MOMENTUM_FILE@);
            let after = performed_all(
                store,
                nesterov_steps(gradient, has_momentum, optimizer),
                apply,
            );
            let averaged = store.files[gradient];
            let momentum = momentum_after(store.files, averaged, optimizer.momentum, apply);
            let op = TensorOp::Nesterov {
                momentum: optimizer.momentum,
                learning_rate: optimizer.learning_rate,
            };
            &&& after.sent == store.sent
            &&& after.reports == store.reports
            &&& after.files == (if has_momentum {
                store.files.insert(MOMENTUM_UPDATE_FILE@, momentum)
            } else {
                store.files
            }).insert(MOMENTUM_FILE@, momentum).insert(
                GRADIENT_FILE@,
                apply(op, averaged, momentum),
            )
        }),
{
    lemma_reserved_names_differ();
    let has_momentum = store.files.dom().contains(MOMENTUM_FILE@);
    let prepare = momentum_steps(gradient, has_momentum, optimizer.momentum);
    let steps = nesterov_steps(gradient, has_momentum, optimizer);
    assert(steps.drop_last() =~= prepare);
    let prepared = performed_all(store, prepare, apply);
    if has_momentum {
        assert(prepare =~= seq![prepare[0]] + seq![prepare[1]]);
        lemma_steps_in_two_parts(store, seq![prepare[0]], seq![prepare[1]], apply);
        lemma_one_step(store, prepare[0], apply);
        lemma_one_step(performed(store, prepare[0], apply), prepare[1], apply);
    } else {
        assert(prepare =~= seq![prepare[0]]);
        lemma_one_step(store, prepare[0], apply);
    }
}

/// Finishing a round sends exactly one file to the workers, made by the Nesterov step from the
/// average and from the momentum of this round. That momentum stays for the next round; the
/// average and what was sent are gone, so the next round starts as clean as this one. The
/// scheduler hears exactly once that the result was sent.
pub proof fn law_round_outcome<A>(
    store: Store<A>,
    average: Seq<char>,
    optimizer: Nesterov,
    job_id: Uuid,
    apply: spec_fn(TensorOp, A, A) -> A,
)
    requires
        store.files.dom().contains(average),
        !is_reserved(average),
    ensures
        ({
            let has_momentum = store.files.dom().contains(MOMENTUM_FILE@);
            let after = performed_all(
                store,
                finishing_steps(average, has_momentum, optimizer, job_id),
                apply,
            );
            let averaged = store.files[average];
            let momentum = momentum_after(store.files, averaged, optimizer.momentum, apply);
            let op = TensorOp::Nesterov {
                momentum: optimizer.momentum,
                learning_rate: optimizer.learning_rate,
            };
            &&& after.sent == store.sent.push(apply(op, averaged, momentum))
            &&& after.reports == store.reports.push(
                ActionRequest {
                    job_id,
                    status: ExecutorStatus::Aggregate(
                        AggregateStatus::BroadcastedUpdate { metrics: None },
                    ),
                },
            )
            &&& after.files == (if has_momentum {
                store.files.insert(MOMENTUM_UPDATE_FILE@, momentum)
            } else {
                store.files
            }).insert(MOMENTUM_FILE@, momentum).remove(average).remove(AVERAGE_FILE@).remove(
                GRADIENT_FILE@,
            )
        }),
{
    lemma_reserved_names_differ();
    let has_momentum = store.files.dom().contains(MOMENTUM_FILE@);
    let rename = StepView::Rename { from: average, to: AVERAGE_FILE@ };
    let optimize = nesterov_steps(AVERAGE_FILE@, has_momentum, optimizer);
    let send = StepView::Send { file: GRADIENT_FILE@ };
    let clear = StepView::Remove { file: GRADIENT_FILE@ };
    let clean = StepView::Remove { file: AVERAGE_FILE@ };
    let report = StepView::Report { request: round_report(job_id) };
    let closing = seq![send, clear, clean, report];
    let renamed = performed(store, rename, apply);
    lemma_one_step(store, rename, apply);
    lemma_steps_in_two_parts(store, seq![rename], optimize, apply);
    law_nesterov_result(renamed, AVERAGE_FILE@, optimizer, apply);
    let optimized = performed_all(renamed, optimize, apply);
    lemma_steps_in_two_parts(store, seq![rename] + optimize, closing, apply);
    assert(closing.drop_last() =~= seq![send, clear, clean]);
    assert(seq![send, clear, clean].drop_last() =~= seq![send, clear]);
    assert(seq![send, clear].drop_last() =~= seq![send]);
    lemma_one_step(optimized, send, apply);
    let sent = performed(optimized, send, apply);
    let cleared = performed(sent, clear, apply);
    let cleaned = performed(cleared, clean, apply);
    assert(performed_all(optimized, seq![send, clear], apply) == cleared);
    assert(performed_all(optimized, seq![send, clear, clean], apply) == cleaned);
    assert(performed_all(optimized, closing, apply) == performed(cleaned, report, apply));
    let momentum = momentum_after(store.files, store.files[average], optimizer.momentum, apply);
    assert(cleaned.files =~= (if has_momentum {
        store.files.insert(MOMENTUM_UPDATE_FILE@, momentum)
    } else {
        store.files
    }).insert(MOMENTUM_FILE@, momentum).remove(average).remove(AVERAGE_FILE@).remove(
        GRADIENT_FILE@,
    ));
}

/// An update is announced only after its file was created and written to the last byte, and a
/// file that could not be written is removed.
pub proof fn law_only_whole_updates_are_announced(step: IntakeStep, succeeded: bool)
    ensures
        step.after(succeeded) == IntakeStep::Announce ==> step == IntakeStep::Restrict,
        step.after(succeeded) == IntakeStep::Restrict ==> step == IntakeStep::Write && succeeded,
        step.after(succeeded) == IntakeStep::Write ==> step == IntakeStep::Create && succeeded,
        step == IntakeStep::Write && !succeeded ==> step.after(succeeded) == IntakeStep::Discard,
        step.after(succeeded) != IntakeStep::Create,
{
}

/// Neither an update nor an average of several ever takes the name of a file that a parameter
/// server keeps for itself, and neither takes the name of the other. None of them is, or lies in,
/// the directory for single tensors, where the result for every tensor does, so no tensor takes
/// the place of another file, whatever its name is.
pub proof fn law_file_names_do_not_clash(
    update: Seq<char>,
    id: Uuid,
    reserved: Seq<char>,
    tensor: Seq<char>,
)
    requires
        is_digest_name(update),
        is_reserved(reserved),
    ensures
        !is_reserved(update),
        !is_reserved(joined_name(id)),
        update != joined_name(id),
        !in_tensor_dir(update) && update != TENSOR_DIR@,
        !in_tensor_dir(joined_name(id)) && joined_name(id) != TENSOR_DIR@,
        !in_tensor_dir(reserved) && reserved != TENSOR_DIR@,
        in_tensor_dir(tensor_file(tensor)),
        tensor_file(tensor) != update,
        tensor_file(tensor) != joined_name(id),
        !is_reserved(tensor_file(tensor)),
{
    reveal_strlit("avg-final");
    reveal_strlit("momentum");
    reveal_strlit("momentum_update");
    reveal_strlit("gradient_update");
    reveal_strlit("joined_");
    reveal_strlit("tensors");
    reveal_strlit("/");
    assert(AVERAGE_FILE@.len() == 9);
    assert(MOMENTUM_FILE@.len() == 8);
    assert(MOMENTUM_UPDATE_FILE@.len() == 15);
    assert(GRADIENT_FILE@.len() == 15);
    assert(joined_name(id).len() == 43);
    let dir = TENSOR_DIR@ + "/"@;
    assert(TENSOR_DIR@.len() == 7);
    assert(dir.len() == 8 && dir[0] == 't');
    assert(is_upper_digit(update[0]));
    assert(joined_name(id)[0] == 'j');
    assert(AVERAGE_FILE@[0] == 'a');
    assert(MOMENTUM_FILE@[0] == 'm');
    assert(MOMENTUM_UPDATE_FILE@[0] == 'm');
    assert(GRADIENT_FILE@[0] == 'g');
    assert forall|path: Seq<char>| path.len() > 0 && path[0] != 't' implies !#[trigger]
        in_tensor_dir(path) by {
        if in_tensor_dir(path) {
            assert(path.subrange(0, 8)[0] == dir[0]);
        }
    }
    assert(tensor_file(tensor).subrange(0, 8) =~= dir);
}

/// Combining two files changes only the file that the result goes to: the results for single
/// tensors go to a directory that holds nothing else, and are gone with it.
pub proof fn law_combining_changes_only_its_output<A>(
    files: Map<Seq<char>, A>,
    results: Map<Seq<char>, A>,
    into: Seq<char>,
    combined: A,
)
    requires
        forall|path: Seq<char>| #[trigger] files.dom().contains(path) ==> !in_tensor_dir(path),
        forall|path: Seq<char>| #[trigger] results.dom().contains(path) ==> in_tensor_dir(path),
        !in_tensor_dir(into),
    ensures
        files.union_prefer_right(results).insert(into, combined).remove_keys(
            Set::new(|path: Seq<char>| in_tensor_dir(path)),
        ) == files.insert(into, combined),
{
    assert(files.union_prefer_right(results).insert(into, combined).remove_keys(
        Set::new(|path: Seq<char>| in_tensor_dir(path)),
    ) =~= files.insert(into, combined));
}

/// The state after several updates, each with its file and with the name for the average.
pub open spec fn state_after(workers: nat, updates: Seq<(Seq<char>, Seq<char>)>) -> AggregationView
    decreases updates.len(),
{
    if updates.len() == 0 {
        AggregationView::start(workers)
    } else {
        state_after(workers, updates.drop_last()).after(updates.last().0, updates.last().1)
    }
}

/// A round is finished by every update whose number is a multiple of the number of workers, and
/// by no other.
pub proof fn law_round_takes_all_workers(workers: nat, updates: Seq<(Seq<char>, Seq<char>)>)
    requires
        workers > 0,
    ensures
        state_after(workers, updates).workers == workers,
        state_after(workers, updates).received == updates.len() % workers,
        state_after(workers, updates).average is None <==> updates.len() % workers == 0,
        state_after(workers, updates).lacks_one() <==> (updates.len() + 1) % workers == 0,
    decreases updates.len(),
{
    let n = updates.len();
    if n > 0 {
        law_round_takes_all_workers(workers, updates.drop_last());
        let before = (n - 1) as int;
        let w = workers as int;
        assert(n % workers == (if before % w + 1 == w {
            0
        } else {
            before % w + 1
        })) by {
            lemma_next_remainder(before, w);
        }
    } else {
        assert(0nat % workers == 0) by (nonlinear_arith)
            requires
                workers > 0,
        ;
    }
    lemma_next_remainder(n as int, workers as int);
}

proof fn lemma_next_remainder(n: int, w: int)
    requires
        n >= 0,
        w > 0,
    ensures
        (n + 1) % w == (if n % w + 1 == w {
            0
        } else {
            n % w + 1
        }),
{
    vstd::arithmetic::div_mod::lemma_fundamental_div_mod(n, w);
    vstd::arithmetic::div_mod::lemma_mod_bound(n, w);
    let q = n / w;
    let r = n % w;
    if r + 1 == w {
        assert(n + 1 == w * (q + 1)) by (nonlinear_arith)
            requires
                n == w * q + r,
                r + 1 == w,
        ;
        vstd::arithmetic::div_mod::lemma_fundamental_div_mod_converse(n + 1, w, q + 1, 0);
    } else {
        assert(n + 1 == q * w + (r + 1)) by (nonlinear_arith)
            requires
                n == w * q + r,
        ;
        vstd::arithmetic::div_mod::lemma_fundamental_div_mod_converse(n + 1, w, q, r + 1);
    }
}

/// The average of several updates: each is averaged with the average of those before it.
pub open spec fn average_of<A>(updates: Seq<A>, apply: spec_fn(TensorOp, A, A) -> A) -> A
    decreases updates.len(),
{
    if updates.len() <= 1 {
        updates[0]
    } else {
        apply(TensorOp::Average, updates.last(), average_of(updates.drop_last(), apply))
    }
}

/// The files once the updates were taken in one by one.
pub open spec fn files_after<A>(
    workers: nat,
    updates: Seq<(Seq<char>, Seq<char>)>,
    files: Map<Seq<char>, A>,
    apply: spec_fn(TensorOp, A, A) -> A,
) -> Map<Seq<char>, A>
    decreases updates.len(),
{
    if updates.len() == 0 {
        files
    } else {
        let before = files_after(workers, updates.drop_last(), files, apply);
        let (update, joined) = updates.last();
        match state_after(workers, updates.drop_last()).average {
            None => before,
            Some(average) => before.insert(
                joined,
                apply(TensorOp::Average, before[update], before[average]),
            ),
        }
    }
}

/// The file that the last of the updates leaves the average in.
pub open spec fn average_file(workers: nat, updates: Seq<(Seq<char>, Seq<char>)>) -> Seq<char> {
    state_after(workers, updates.drop_last()).average_with(updates.last().0, updates.last().1)
}

/// Up to the update that finishes the round, the file of the average holds the average of exactly
/// the updates that were received, as long as no name for an average is that of an update.
pub proof fn law_average_holds_all_updates<A>(
    workers: nat,
    updates: Seq<(Seq<char>, Seq<char>)>,
    files: Map<Seq<char>, A>,
    apply: spec_fn(TensorOp, A, A) -> A,
    name: Seq<char>,
)
    requires
        0 < updates.len() <= workers,
        forall|i: int, j: int|
            0 <= i < updates.len() && 0 <= j < updates.len() ==> (#[trigger] updates[i]).0 != (
            #[trigger] updates[j]).1,
    ensures
        files_after(workers, updates, files, apply)[average_file(workers, updates)] == average_of(
            updates.map_values(|update: (Seq<char>, Seq<char>)| files[update.0]),
            apply,
        ),
        updates.len() < workers ==> state_after(workers, updates).average == Some(
            average_file(workers, updates),
        ),
        (forall|i: int| 0 <= i < updates.len() ==> (#[trigger] updates[i]).1 != name)
            ==> files_after(workers, updates, files, apply)[name] == files[name],
    decreases updates.len(),
{
    let contents = updates.map_values(|update: (Seq<char>, Seq<char>)| files[update.0]);
    let before = updates.drop_last();
    let (update, joined) = updates.last();
    law_round_takes_all_workers(workers, before);
    law_round_takes_all_workers(workers, updates);
    assert((updates.len() - 1) as int % workers as int == updates.len() - 1) by {
        vstd::arithmetic::div_mod::lemma_small_mod(
            (updates.len() - 1) as nat,
            workers,
        );
    }
    if updates.len() > 1 {
        assert forall|i: int, j: int| 0 <= i < before.len() && 0 <= j < before.len() implies (
        #[trigger] before[i]).0 != (#[trigger] before[j]).1 by {
            assert(updates[i].0 != updates[j].1);
        }
        law_average_holds_all_updates(workers, before, files, apply, update);
        assert forall|i: int| 0 <= i < before.len() implies (#[trigger] before[i]).1 != update by {
            assert(updates[updates.len() - 1].0 != updates[i].1);
        }
        assert(contents.drop_last() =~= before.map_values(
            |update: (Seq<char>, Seq<char>)| files[update.0],
        ));
        if forall|i: int| 0 <= i < updates.len() ==> (#[trigger] updates[i]).1 != name {
            assert(updates[updates.len() - 1].1 != name);
            assert forall|i: int| 0 <= i < before.len() implies (#[trigger] before[i]).1 != name by {
                assert(updates[i].1 != name);
            }
            law_average_holds_all_updates(workers, before, files, apply, name);
        }
    } else {
        assert(before =~= Seq::empty());
        assert(state_after(workers, before) == AggregationView::start(workers));
        assert(files_after(workers, before, files, apply) == files);
    }
}

/// The files of the results once all tensors of the first file were paired, each given by its name
/// and by whether the second file has it too.
pub open spec fn merged(tensors: Seq<(Seq<char>, bool)>) -> Seq<Seq<char>>
    decreases tensors.len(),
{
    if tensors.len() == 0 {
        Seq::empty()
    } else {
        let before = merged(tensors.drop_last());
        let (name, in_second) = tensors.last();
        if in_second {
            before.push(tensor_file(name))
        } else {
            before
        }
    }
}

/// There is a result for each tensor that both files have, and for no other.
pub proof fn law_shared_tensors_are_merged(tensors: Seq<(Seq<char>, bool)>, file: Seq<char>)
    ensures
        merged(tensors).contains(file) <==> exists|i: int|
            0 <= i < tensors.len() && (#[trigger] tensors[i]).1 && tensor_file(tensors[i].0) == file,
        merged(tensors).len() <= tensors.len(),
    decreases tensors.len(),
{
    if tensors.len() > 0 {
        let rest = tensors.drop_last();
        let before = merged(rest);
        let last = tensors.len() - 1;
        law_shared_tensors_are_merged(rest, file);
        assert forall|i: int| 0 <= i < last implies (#[trigger] tensors[i]) == rest[i] by {}
        assert(tensors[last] == tensors.last());
        let newest = tensor_file(tensors.last().0);
        assert(before.push(newest).contains(file) <==> before.contains(file) || newest == file) by {
            if before.contains(file) {
                let k = before.index_of(file);
                assert(before.push(newest)[k] == file);
            }
            assert(before.push(newest)[before.len() as int] == newest);
            if before.push(newest).contains(file) {
                let k = before.push(newest).index_of(file);
                if k < before.len() {
                    assert(before[k] == file);
                }
            }
        }
        if exists|i: int|
            0 <= i < tensors.len() && (#[trigger] tensors[i]).1 && tensor_file(tensors[i].0)
                == file {
            let i = choose|i: int|
                0 <= i < tensors.len() && (#[trigger] tensors[i]).1 && tensor_file(tensors[i].0)
                    == file;
            if i < last {
                assert(rest[i].1 && tensor_file(rest[i].0) == file);
            }
        }
    }
}

/// What carrying out `merge` does to the files.
pub open spec fn files_with<A>(
    files: Map<Seq<char>, A>,
    merge: Merge,
    apply: spec_fn(TensorOp, A, A) -> A,
) -> Map<Seq<char>, A> {
    match merge {
        Merge::Adopt => files,
        Merge::Average { update, with, into } => files.insert(
            into@,
            apply(TensorOp::Average, files[update@], files[with@]),
        ),
    }
}

/// The files once all merges that were called for were carried out in turn.
pub open spec fn carried_out<A>(
    files: Map<Seq<char>, A>,
    called_for: Seq<Received>,
    apply: spec_fn(TensorOp, A, A) -> A,
) -> Map<Seq<char>, A>
    decreases called_for.len(),
{
    if called_for.len() == 0 {
        files
    } else {
        files_with(
            carried_out(files, called_for.drop_last(), apply),
            called_for.last().merge,
            apply,
        )
    }
}

/// Whether `called_for` is what a server that starts without updates returned for `updates`, one
/// after the other, and `states` are the states that it came through.
pub open spec fn took_in(
    workers: nat,
    updates: Seq<Seq<char>>,
    ids: Seq<Uuid>,
    states: Seq<AggregationView>,
    called_for: Seq<Received>,
) -> bool {
    &&& ids.len() == updates.len()
    &&& called_for.len() == updates.len()
    &&& states.len() == updates.len() + 1
    &&& states[0] == AggregationView::start(workers)
    &&& forall|i: int|
        0 <= i < updates.len() ==> states[i + 1] == (#[trigger] states[i]).after(
            updates[i],
            joined_name(ids[i]),
        )
    &&& forall|i: int|
        0 <= i < updates.len() ==> (#[trigger] called_for[i]).follows(
            states[i],
            updates[i],
            joined_name(ids[i]),
        )
}

/// Files that have no name of an average stay as they are.
proof fn lemma_other_files_stay<A>(
    workers: nat,
    updates: Seq<Seq<char>>,
    ids: Seq<Uuid>,
    states: Seq<AggregationView>,
    called_for: Seq<Received>,
    files: Map<Seq<char>, A>,
    apply: spec_fn(TensorOp, A, A) -> A,
    n: int,
    name: Seq<char>,
)
    requires
        took_in(workers, updates, ids, states, called_for),
        0 <= n <= updates.len(),
        forall|j: int| 0 <= j < ids.len() ==> joined_name(#[trigger] ids[j]) != name,
    ensures
        carried_out(files, called_for.take(n), apply)[name] == files[name],
    decreases n,
{
    if n == 0 {
        assert(called_for.take(0) =~= Seq::empty());
    } else {
        lemma_other_files_stay(
            workers,
            updates,
            ids,
            states,
            called_for,
            files,
            apply,
            n - 1,
            name,
        );
        assert(called_for.take(n).drop_last() =~= called_for.take(n - 1));
        assert(called_for.take(n).last() == called_for[n - 1]);
        assert(called_for[n - 1].follows(states[n - 1], updates[n - 1], joined_name(ids[n - 1])));
        assert(joined_name(ids[n - 1]) != name);
    }
}

/// The contents of the updates.
pub open spec fn contents_of<A>(updates: Seq<Seq<char>>, files: Map<Seq<char>, A>) -> Seq<A> {
    updates.map_values(|update: Seq<char>| files[update])
}

proof fn lemma_taken_in_so_far<A>(
    workers: nat,
    updates: Seq<Seq<char>>,
    ids: Seq<Uuid>,
    states: Seq<AggregationView>,
    called_for: Seq<Received>,
    files: Map<Seq<char>, A>,
    apply: spec_fn(TensorOp, A, A) -> A,
    n: int,
)
    requires
        took_in(workers, updates, ids, states, called_for),
        0 < n <= updates.len() <= workers,
        forall|i: int, j: int|
            0 <= i < updates.len() && 0 <= j < ids.len() ==> (#[trigger] updates[i])
                != joined_name(#[trigger] ids[j]),
    ensures
        called_for[n - 1].finished is Some <==> n == workers,
        ({
            let reached = carried_out(files, called_for.take(n), apply);
            let averaged = average_of(contents_of(updates.take(n), files), apply);
            &&& n < workers ==> {
                &&& states[n].workers == workers
                &&& states[n].received == n
                &&& states[n].average is Some
                &&& reached[states[n].average->0] == averaged
            }
            &&& n == workers ==> reached[called_for[n - 1].finished->0@] == averaged
        }),
    decreases n,
{
    let update = updates[n - 1];
    let joined = joined_name(ids[n - 1]);
    let before = carried_out(files, called_for.take(n - 1), apply);
    assert(called_for.take(n).drop_last() =~= called_for.take(n - 1));
    assert(called_for.take(n).last() == called_for[n - 1]);
    assert(called_for[n - 1].follows(states[n - 1], update, joined));
    assert(states[n - 1 + 1] == states[n - 1].after(update, joined));
    assert(before[update] == files[update]) by {
        assert forall|j: int| 0 <= j < ids.len() implies joined_name(#[trigger] ids[j])
            != update by {
            assert(updates[n - 1] != joined_name(ids[j]));
        }
        lemma_other_files_stay(
            workers,
            updates,
            ids,
            states,
            called_for,
            files,
            apply,
            n - 1,
            update,
        );
    }
    let contents = contents_of(updates.take(n), files);
    assert(contents.len() == n && contents.last() == files[update]);
    if n > 1 {
        lemma_taken_in_so_far(workers, updates, ids, states, called_for, files, apply, n - 1);
        assert(contents.drop_last() =~= contents_of(updates.take(n - 1), files));
    } else {
        assert(states[0].average is None);
        assert(called_for.take(0) =~= Seq::empty());
    }
}

/// A round averages the updates of all workers, each once. To carry out, one after the other, what
/// was returned for the updates of a round leaves in the file that the last of them names the
/// running average of all updates, and no update is lost on the way. No update before the last
/// finishes the round, and the next round starts without updates.
pub proof fn law_round_averages_every_update<A>(
    workers: nat,
    updates: Seq<Seq<char>>,
    ids: Seq<Uuid>,
    states: Seq<AggregationView>,
    called_for: Seq<Received>,
    files: Map<Seq<char>, A>,
    apply: spec_fn(TensorOp, A, A) -> A,
    i: int,
)
    requires
        workers > 0,
        took_in(workers, updates, ids, states, called_for),
        updates.len() == workers,
        forall|i: int, j: int|
            0 <= i < updates.len() && 0 <= j < ids.len() ==> (#[trigger] updates[i])
                != joined_name(#[trigger] ids[j]),
        0 <= i < workers,
    ensures
        called_for[i].finished is Some <==> i == workers - 1,
        called_for.last().finished matches Some(file) && carried_out(
            files,
            called_for,
            apply,
        )[file@] == average_of(updates.map_values(|update: Seq<char>| files[update]), apply),
        carried_out(files, called_for, apply)[updates[i]] == files[updates[i]],
        states[workers as int].average is None,
        states[workers as int].received == 0,
        states[workers as int].workers == workers,
{
    let n = workers as int;
    lemma_taken_in_so_far(workers, updates, ids, states, called_for, files, apply, i + 1);
    lemma_taken_in_so_far(workers, updates, ids, states, called_for, files, apply, n);
    if n > 1 {
        lemma_taken_in_so_far(workers, updates, ids, states, called_for, files, apply, n - 1);
    }
    assert(called_for.take(n) =~= called_for);
    assert(updates.take(n) =~= updates);
    assert(contents_of(updates, files) == updates.map_values(
        |update: Seq<char>| files[update],
    ));
    assert(states[n - 1 + 1] == states[n - 1].after(updates[n - 1], joined_name(ids[n - 1])));
    assert forall|j: int| 0 <= j < ids.len() implies joined_name(#[trigger] ids[j]) != updates[i] by {
        assert(updates[i] != joined_name(ids[j]));
    }
    lemma_other_files_stay(
        workers,
        updates,
        ids,
        states,
        called_for,
        files,
        apply,
        n,
        updates[i],
    );
}

/// Without workers no update ever finishes a round.
pub proof fn law_no_round_without_workers(
    updates: Seq<Seq<char>>,
    ids: Seq<Uuid>,
    states: Seq<AggregationView>,
    called_for: Seq<Received>,
    i: int,
)
    requires
        took_in(0, updates, ids, states, called_for),
        0 <= i < updates.len(),
    ensures
        called_for[i].finished is None,
        states[i + 1].workers == 0,
    decreases i,
{
    if i > 0 {
        law_no_round_without_workers(updates, ids, states, called_for, i - 1);
    }
    assert(called_for[i].follows(states[i], updates[i], joined_name(ids[i])));
    assert(states[i + 1] == states[i].after(updates[i], joined_name(ids[i])));
}

/// The averages of different identifiers are in different files.
pub proof fn law_averages_have_their_own_files(first: Uuid, second: Uuid)
    ensures
        joined_name(first) == joined_name(second) ==> first == second,
{
    if joined_name(first) == joined_name(second) {
        let n = "joined_"@.len();
        assert(joined_name(first).skip(n as int) =~= hyphenated(first.bits));
        assert(joined_name(second).skip(n as int) =~= hyphenated(second.bits));
        crate::ids::law_identifiers_differ_in_text(first, second);
    }
}

/// The results for tensors are in different files, unless their names have the same digest.
pub proof fn law_tensors_have_their_own_files(first: Seq<char>, second: Seq<char>)
    ensures
        tensor_file(first) == tensor_file(second) ==> crate::digest::sha256(first)
            == crate::digest::sha256(second),
{
    if tensor_file(first) == tensor_file(second) {
        let n = (TENSOR_DIR@ + "/"@).len();
        assert(tensor_file(first).skip(n as int) =~= file_named(first));
        assert(tensor_file(second).skip(n as int) =~= file_named(second));
        crate::digest::law_hex_is_injective(
            crate::digest::sha256(first),
            crate::digest::sha256(second),
        );
    }
}

/// Finishing a round starts with renaming the average, so that its name is free, and ends with the
/// report to the scheduler, which is the only one and says that the result was broadcast. The
/// result is sent once, before that, and after the momentum was put in its place, whether there
/// was one before or not.
pub proof fn law_round_ends_with_its_report(
    average: String,
    has_momentum: bool,
    optimizer: Nesterov,
    job_id: Uuid,
    made: Vec<Step>,
    steps: Seq<Step>,
    i: int,
)
    requires
        call_ensures(finish_round, (average, has_momentum, optimizer, job_id), made),
        steps == made@,
        0 <= i < steps.len(),
    ensures
        steps[0] matches Step::Rename { from, to: _ } && from@ == average@,
        steps.last() matches Step::Report { request } && request.job_id == job_id && request.status
            == ExecutorStatus::Aggregate(AggregateStatus::BroadcastedUpdate { metrics: None }),
        steps[i] is Report <==> i == steps.len() - 1,
        exists|sends: int, keeps: int|
            {
                &&& 0 < keeps < sends < steps.len() - 1
                &&& (#[trigger] steps[keeps]) matches Step::Copy { from: _, to } && to@
                    == MOMENTUM_FILE@
                &&& (#[trigger] steps[sends]) is Send
                &&& forall|j: int| 0 <= j < steps.len() && j != sends ==> !(steps[j] is Send)
            },
{
    let views = step_views(steps);
    let n = steps.len() as int;
    assert(views.len() == n);
    assert forall|j: int| 0 <= j < n implies (#[trigger] steps[j])@ == views[j] by {}
    assert(steps[0]@ == views[0]);
    assert(steps[n - 1]@ == views[n - 1]);
    assert(steps[i]@ == views[i]);
    let keeps = if has_momentum {
        2int
    } else {
        1int
    };
    assert(steps[keeps]@ == views[keeps]);
    assert(steps[n - 4]@ == views[n - 4]);
    assert(steps[n - 4] is Send);
}

/// An update is announced exactly when its file was created and written to the last byte, whether
/// its permissions could be set or not. Its file is removed exactly when it was created and could
/// not be written. Then nothing more is done about it.
pub proof fn law_intake_of_an_update(created: bool, written: bool, restricted: bool, any: bool)
    ensures
        ({
            let second = IntakeStep::Create.after(created);
            let third = second.after(written);
            let fourth = third.after(restricted);
            &&& second == IntakeStep::Write <==> created
            &&& third == IntakeStep::Restrict <==> created && written
            &&& third == IntakeStep::Discard <==> created && !written
            &&& fourth == IntakeStep::Announce <==> created && written
            &&& fourth == IntakeStep::Done <==> !(created && written)
            &&& fourth.after(any) == IntakeStep::Done
        }),
{
}

/// What is returned for an update is what its state calls for, and the state moves on with it; a
/// new server starts without updates.
pub proof fn law_updates_are_taken_in_as_called_for(
    workers: usize,
    new: Aggregation,
    server: &mut Aggregation,
    update: String,
    id: Uuid,
    received: Received,
)
    requires
        call_ensures(Aggregation::new, (workers,), new),
        call_ensures(Aggregation::receive_as, (server, update, id), received),
    ensures
        new@ == AggregationView::start(workers as nat),
        new@.workers == workers && new@.average is None && new@.received == 0,
        final(server)@ == old(server)@.after(update@, joined_name(id)),
        received.follows(old(server)@, update@, joined_name(id)),
        final(server)@.workers == old(server)@.workers,
        old(server)@.average is None ==> received.merge is Adopt,
        old(server)@.average matches Some(average) ==> (received.merge matches Merge::Average {
            update: first,
            with,
            into,
        } && first@ == update@ && with@ == average && into@ == "joined_"@ + hyphenated(id.bits)),
        received.finished is Some <==> old(server)@.received + 1 == old(server)@.workers,
{
}

/// An update that is taken in under a new name is taken in as under any other.
pub proof fn law_new_names_change_nothing_else(
    server: &mut Aggregation,
    update: String,
    received: Received,
)
    requires
        call_ensures(Aggregation::receive, (server, update), received),
    ensures
        exists|id: Uuid| #[trigger]
            id.is_v4() && final(server)@ == old(server)@.after(update@, joined_name(id))
                && received.follows(old(server)@, update@, joined_name(id)),
        old(server)@.average is None ==> received.merge is Adopt,
        old(server)@.average matches Some(average) ==> (received.merge matches Merge::Average {
            update: first,
            with,
            into: _,
        } && first@ == update@ && with@ == average),
        received.finished is Some <==> old(server)@.received + 1 == old(server)@.workers,
{
}

/// The steps that are returned for finishing a round, for optimizing, and for updating the
/// momentum do what they are for: what is sent is made by the Nesterov step from the average and
/// from the momentum of this round, which is what the average adds to the momentum of the round
/// before, and is kept. The scheduler hears of it once.
pub proof fn law_returned_steps_do_their_work<A>(
    average: String,
    gradient: &str,
    optimizer: Nesterov,
    job_id: Uuid,
    finishing: Vec<Step>,
    optimizing: Vec<Step>,
    updating: Vec<Step>,
    store: Store<A>,
    apply: spec_fn(TensorOp, A, A) -> A,
)
    requires
        call_ensures(
            finish_round,
            (average, store.files.dom().contains(MOMENTUM_FILE@), optimizer, job_id),
            finishing,
        ),
        call_ensures(
            nesterov,
            (gradient, store.files.dom().contains(MOMENTUM_FILE@), optimizer),
            optimizing,
        ),
        call_ensures(
            update_momentum,
            (gradient, store.files.dom().contains(MOMENTUM_FILE@), optimizer.momentum),
            updating,
        ),
        store.files.dom().contains(average@),
        !is_reserved(average@),
        store.files.dom().contains(gradient@),
        gradient@ != MOMENTUM_FILE@,
        gradient@ != MOMENTUM_UPDATE_FILE@,
    ensures
        ({
            let has_momentum = store.files.dom().contains(MOMENTUM_FILE@);
            let previous = store.files[MOMENTUM_FILE@];
            let keep = TensorOp::Momentum { momentum: optimizer.momentum };
            let op = TensorOp::Nesterov {
                momentum: optimizer.momentum,
                learning_rate: optimizer.learning_rate,
            };
            let averaged = store.files[average@];
            let finished = performed_all(store, step_views(finishing@), apply);
            let optimized = performed_all(store, step_views(optimizing@), apply);
            let updated = performed_all(store, step_views(updating@), apply);
            let given = store.files[gradient@];
            &&& finished.files[MOMENTUM_FILE@] == if has_momentum {
                apply(keep, averaged, previous)
            } else {
                averaged
            }
            &&& finished.sent == store.sent.push(
                apply(op, averaged, finished.files[MOMENTUM_FILE@]),
            )
            &&& finished.reports.len() == store.reports.len() + 1
            &&& finished.reports.last().job_id == job_id
            &&& finished.reports.last().status == ExecutorStatus::Aggregate(
                AggregateStatus::BroadcastedUpdate { metrics: None },
            )
            &&& !finished.files.dom().contains(average@)
            &&& updated.files[MOMENTUM_FILE@] == if has_momentum {
                apply(keep, given, previous)
            } else {
                given
            }
            &&& updated.sent == store.sent
            &&& optimized.files[MOMENTUM_FILE@] == updated.files[MOMENTUM_FILE@]
            &&& optimized.files[GRADIENT_FILE@] == apply(
                op,
                given,
                updated.files[MOMENTUM_FILE@],
            )
            &&& optimized.sent == store.sent
        }),
{
    lemma_reserved_names_differ();
    law_round_outcome(store, average@, optimizer, job_id, apply);
    law_nesterov_result(store, gradient@, optimizer, apply);
    let has_momentum = store.files.dom().contains(MOMENTUM_FILE@);
    let prepare = momentum_steps(gradient@, has_momentum, optimizer.momentum);
    let steps = nesterov_steps(gradient@, has_momentum, optimizer);
    assert(steps.drop_last() =~= prepare);
    let updated = performed_all(store, prepare, apply);
    let optimized = performed_all(store, steps, apply);
    assert(optimized == performed(updated, steps.last(), apply));
    assert(optimized.sent == updated.sent);
    assert(optimized.files[MOMENTUM_FILE@] == updated.files[MOMENTUM_FILE@]);
}

/// A parameter server runs aggregations, as they are configured, and nothing else.
pub proof fn law_servers_run_aggregations(
    job: &JobSpec,
    config: Result<&AggregateExecutorConfig, ExecutorError>,
)
    requires
        call_ensures(aggregation_of, (job,), config),
    ensures
        config is Ok <==> job.executor is Aggregate,
        job.executor is Aggregate ==> *config->Ok_0
            == job.executor->Aggregate_0.configuration(),
{
}

/// Twice as many updates may wait as there are workers, and never fewer than two.
pub proof fn law_backlog_grows_with_the_workers(workers: usize, capacity: usize)
    requires
        workers <= usize::MAX / 2,
        call_ensures(backlog, (workers,), capacity),
    ensures
        capacity >= 2,
        workers > 0 ==> capacity == workers + workers,
        workers == 0 ==> capacity == 2,
{
}

/// Jobs work in directories of their own.
pub proof fn law_jobs_have_their_own_directories(
    first: Uuid,
    second: Uuid,
    name: String,
    other: String,
)
    requires
        call_ensures(work_dir_name, (first,), name),
        call_ensures(work_dir_name, (second,), other),
    ensures
        name@ == other@ ==> first == second,
        "hypha-"@.is_prefix_of(name@),
{
    let n = "hypha-"@.len() as int;
    assert(name@.subrange(0, n) =~= "hypha-"@);
    if name@ == other@ {
        assert(name@.skip(n) =~= hyphenated(first.bits));
        assert(other@.skip(n) =~= hyphenated(second.bits));
        crate::ids::law_identifiers_differ_in_text(first, second);
    }
}

/// What is returned about an update that a worker sends is the step that follows.
pub proof fn law_intake_goes_on(step: IntakeStep, succeeded: bool, next: IntakeStep)
    requires
        call_ensures(IntakeStep::next, (step, succeeded), next),
    ensures
        next == step.after(succeeded),
        step == IntakeStep::Create ==> next == (if succeeded {
            IntakeStep::Write
        } else {
            IntakeStep::Done
        }),
        step == IntakeStep::Write ==> next == (if succeeded {
            IntakeStep::Restrict
        } else {
            IntakeStep::Discard
        }),
        step == IntakeStep::Restrict ==> next == IntakeStep::Announce,
{
}

/// A tensor that both files have gets a file for its result, which is listed once, behind the
/// others; a tensor that only one has gets none. All files that are listed are written to the
/// output, in order, and there is no output without any.
pub proof fn law_results_are_listed(
    new: TensorMerge,
    merge: &mut TensorMerge,
    name: &str,
    in_second: bool,
    file: Option<String>,
    done: TensorMerge,
    files: Option<Vec<String>>,
    i: int,
)
    requires
        call_ensures(TensorMerge::new, (), new),
        call_ensures(TensorMerge::pair, (merge, name, in_second), file),
        call_ensures(TensorMerge::finish, (done,), files),
    ensures
        new@.len() == 0,
        file is Some <==> in_second,
        !in_second ==> final(merge)@ == old(merge)@,
        in_second ==> {
            &&& final(merge)@.len() == old(merge)@.len() + 1
            &&& final(merge)@.last() == file->0@
            &&& final(merge)@.drop_last() == old(merge)@
            &&& in_tensor_dir(file->0@)
        },
        files is Some <==> done@.len() > 0,
        files is Some ==> files->0@.len() == done@.len(),
        files is Some && 0 <= i < done@.len() ==> files->0@[i]@ == done@[i],
{
    if in_second {
        assert(old(merge)@.push(file->0@).drop_last() =~= old(merge)@);
        let n = (TENSOR_DIR@ + "/"@).len() as int;
        assert(tensor_file(name@).subrange(0, n) =~= TENSOR_DIR@ + "/"@);
    }
    if files is Some && 0 <= i < done@.len() {
        assert(crate::text::texts(files->0@)[i] == files->0@[i]@);
    }
}

/// The text of a failed combination tells what failed, and the error in full.
pub proof fn law_combination_errors_tell_why(error: String, texts: (String, String, String))
    requires
        call_ensures(TensorOpError::to_string, (&TensorOpError::Candle(error),), texts.0),
        call_ensures(TensorOpError::to_string, (&TensorOpError::Safetensor(error),), texts.1),
        call_ensures(TensorOpError::to_string, (&TensorOpError::Io(error),), texts.2),
    ensures
        texts.0@.skip("Candle core error: "@.len() as int) == error@,
        texts.1@.skip("Safetensors error: "@.len() as int) == error@,
        texts.2@.skip("I/O error: "@.len() as int) == error@,
        "Candle core error: "@.is_prefix_of(texts.0@),
        "Safetensors error: "@.is_prefix_of(texts.1@),
        "I/O error: "@.is_prefix_of(texts.2@),
{
    assert(texts.0@.skip("Candle core error: "@.len() as int) =~= error@);
    assert(texts.1@.skip("Safetensors error: "@.len() as int) =~= error@);
    assert(texts.2@.skip("I/O error: "@.len() as int) =~= error@);
    assert(texts.0@.subrange(0, "Candle core error: "@.len() as int) =~= "Candle core error: "@);
    assert(texts.1@.subrange(0, "Safetensors error: "@.len() as int) =~= "Safetensors error: "@);
    assert(texts.2@.subrange(0, "I/O error: "@.len() as int) =~= "I/O error: "@);
}

} // verus!
