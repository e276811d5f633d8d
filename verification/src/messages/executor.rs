//! Executors: what a job asks a worker to run, and with which configuration.

use vstd::prelude::*;

use crate::ids::Uuid;
use crate::messages::reference::{Fetch, Receive, Send};
use crate::number::Double;
use crate::resources::Resources;

verus! {

#[derive(Clone, Debug)]
pub struct JobSpec {
    pub job_id: Uuid,
    /// Executor configuration
    pub executor: Executor,
}

/// Worker specification
#[derive(Debug)]
pub struct WorkerSpec {
    /// Definition of the resources required (minimum) by the worker
    pub resources: Resources,
    /// Executor configuration
    pub executor: Vec<ExecutorDescriptor>,
}

impl Clone for WorkerSpec {
    fn clone(&self) -> (copy: WorkerSpec)
        ensures
            copy.resources == self.resources,
            copy.executor@ == self.executor@,
    {
        let executor = self.executor.clone();
        assert(executor@ =~= self.executor@);
        WorkerSpec { resources: self.resources, executor }
    }
}

#[derive(Clone, Copy, Debug, PartialEq, Eq, Structural)]
pub enum ModelType {
    Auto,
    Pretraining,
    CausalLm,
    MaskedLm,
    MaskGeneration,
    Seq2SeqLm,
    SequenceClassification,
    MultipleChoice,
    NextSentencePrediction,
    TokenClassification,
    QuestionAnswering,
    TextEncoding,
    DepthEstimation,
    ImageClassification,
    VideoClassification,
    KeypointDetection,
    KeypointMatching,
    ObjectDetection,
    ImageSegmentation,
    ImageToImage,
    SemanticSegmentation,
    InstanceSegmentation,
    UniversalSegmentation,
    ZeroShotImageClassification,
    ZeroShotObjectDetection,
    AudioClassification,
    AudioFrameClassification,
    Ctc,
    SpeechSeq2Seq,
    AudioXVector,
    TextToSpectrogram,
    TextToWaveform,
    AudioTokenization,
    TableQuestionAnswering,
    DocumentQuestionAnswering,
    Vison2Seq,
    ImageTextToText,
    TimeSeriesPrediction,
}

/// Executor configuration payload keyed off the executor class.
#[derive(Clone, Debug)]
pub struct Model {
    pub task: ModelType,
    pub artifact: Fetch,
    pub input_names: Vec<String>,
}

#[derive(Clone, Copy, Debug, PartialEq, Eq, Structural)]
pub enum PreprocessorType {
    Tokenizer,
    Feature,
    Image,
    Video,
    Auto,
}

/// Executor configuration payload keyed off the executor class.
#[derive(Clone, Debug)]
pub struct Preprocessor {
    pub task: PreprocessorType,
    pub artifact: Fetch,
    pub input_names: Vec<String>,
}

#[derive(Clone, Debug)]
pub struct TrainExecutorConfig {
    pub model: Model,
    pub data: Fetch,
    /// Destination to send local training updates.
    pub updates: Send,
    /// Stream providing aggregated parameters back to the executor.
    pub results: Receive,
    pub optimizer: Adam,
    pub batch_size: u32,
    pub preprocessor: Option<Preprocessor>,
    pub scheduler: Option<Scheduler>,
}

#[derive(Clone, Debug)]
pub struct AggregateExecutorConfig {
    /// Stream of updates produced by workers.
    pub updates: Receive,
    /// Stream used to distribute aggregated parameters back to workers.
    pub results: Send,
    pub optimizer: Nesterov,
}

#[derive(Debug, Eq, Hash)]
pub struct TrainExecutorDescriptor {
    name: String,
}

/// Descriptors are equal when their names are.
impl PartialEq for TrainExecutorDescriptor {
    fn eq(&self, other: &TrainExecutorDescriptor) -> (equal: bool) {
        self.name == other.name
    }
}

impl vstd::std_specs::cmp::PartialEqSpecImpl for TrainExecutorDescriptor {
    open spec fn obeys_eq_spec() -> bool {
        true
    }

    open spec fn eq_spec(&self, other: &TrainExecutorDescriptor) -> bool {
        self.text() == other.text()
    }
}

impl Clone for TrainExecutorDescriptor {
    fn clone(&self) -> (copy: TrainExecutorDescriptor)
        ensures
            copy == *self,
    {
        TrainExecutorDescriptor { name: self.name.clone() }
    }
}

impl TrainExecutorDescriptor {
    /// The name of the executor.
    pub closed spec fn text(self) -> Seq<char> {
        self.name@
    }

    pub fn new(name: &str) -> (descriptor: TrainExecutorDescriptor)
        ensures
            descriptor.text() == name@,
    {
        TrainExecutorDescriptor { name: name.to_owned() }
    }

    pub fn name(&self) -> (name: &str)
        ensures
            name@ == self.text(),
    {
        self.name.as_str()
    }

    pub fn into_executor(self, config: TrainExecutorConfig) -> (executor: TrainExecutor)
        ensures
            executor.described_by() == self,
            executor.configuration() == config,
    {
        TrainExecutor { descriptor: self, config }
    }
}

impl From<TrainExecutorDescriptor> for ExecutorDescriptor {
    fn from(descriptor: TrainExecutorDescriptor) -> (executor: ExecutorDescriptor) {
        ExecutorDescriptor::Train(descriptor)
    }
}

impl vstd::std_specs::convert::FromSpecImpl<TrainExecutorDescriptor> for ExecutorDescriptor {
    open spec fn obeys_from_spec() -> bool {
        true
    }

    open spec fn from_spec(descriptor: TrainExecutorDescriptor) -> ExecutorDescriptor {
        ExecutorDescriptor::Train(descriptor)
    }
}

#[derive(Clone, Debug)]
pub struct TrainExecutor {
    descriptor: TrainExecutorDescriptor,
    config: TrainExecutorConfig,
}

impl TrainExecutor {
    /// The descriptor that the executor was made from.
    pub closed spec fn described_by(self) -> TrainExecutorDescriptor {
        self.descriptor
    }

    /// The configuration that the executor was made from.
    pub closed spec fn configuration(self) -> TrainExecutorConfig {
        self.config
    }

    pub fn descriptor(&self) -> (descriptor: &TrainExecutorDescriptor)
        ensures
            *descriptor == self.described_by(),
    {
        &self.descriptor
    }

    pub fn config(&self) -> (config: &TrainExecutorConfig)
        ensures
            *config == self.configuration(),
    {
        &self.config
    }
}

impl From<TrainExecutor> for Executor {
    fn from(inner: TrainExecutor) -> (executor: Executor) {
        Executor::Train(inner)
    }
}

impl vstd::std_specs::convert::FromSpecImpl<TrainExecutor> for Executor {
    open spec fn obeys_from_spec() -> bool {
        true
    }

    open spec fn from_spec(inner: TrainExecutor) -> Executor {
        Executor::Train(inner)
    }
}

#[derive(Debug, Eq, Hash)]
pub struct AggregateExecutorDescriptor {
    name: String,
}

/// Descriptors are equal when their names are.
impl PartialEq for AggregateExecutorDescriptor {
    fn eq(&self, other: &AggregateExecutorDescriptor) -> (equal: bool) {
        self.name == other.name
    }
}

impl vstd::std_specs::cmp::PartialEqSpecImpl for AggregateExecutorDescriptor {
    open spec fn obeys_eq_spec() -> bool {
        true
    }

    open spec fn eq_spec(&self, other: &AggregateExecutorDescriptor) -> bool {
        self.text() == other.text()
    }
}

impl Clone for AggregateExecutorDescriptor {
    fn clone(&self) -> (copy: AggregateExecutorDescriptor)
        ensures
            copy == *self,
    {
        AggregateExecutorDescriptor { name: self.name.clone() }
    }
}

impl AggregateExecutorDescriptor {
    /// The name of the executor.
    pub closed spec fn text(self) -> Seq<char> {
        self.name@
    }

    pub fn new(name: &str) -> (descriptor: AggregateExecutorDescriptor)
        ensures
            descriptor.text() == name@,
    {
        AggregateExecutorDescriptor { name: name.to_owned() }
    }

    pub fn name(&self) -> (name: &str)
        ensures
            name@ == self.text(),
    {
        self.name.as_str()
    }

    pub fn into_executor(self, config: AggregateExecutorConfig) -> (executor: AggregateExecutor)
        ensures
            executor.described_by() == self,
            executor.configuration() == config,
    {
        AggregateExecutor { descriptor: self, config }
    }
}

impl From<AggregateExecutorDescriptor> for ExecutorDescriptor {
    fn from(descriptor: AggregateExecutorDescriptor) -> (executor: ExecutorDescriptor) {
        ExecutorDescriptor::Aggregate(descriptor)
    }
}

impl vstd::std_specs::convert::FromSpecImpl<AggregateExecutorDescriptor> for ExecutorDescriptor {
    open spec fn obeys_from_spec() -> bool {
        true
    }

    open spec fn from_spec(descriptor: AggregateExecutorDescriptor) -> ExecutorDescriptor {
        ExecutorDescriptor::Aggregate(descriptor)
    }
}

#[derive(Clone, Debug)]
pub struct AggregateExecutor {
    descriptor: AggregateExecutorDescriptor,
    config: AggregateExecutorConfig,
}

impl AggregateExecutor {
    /// The descriptor that the executor was made from.
    pub closed spec fn described_by(self) -> AggregateExecutorDescriptor {
        self.descriptor
    }

    /// The configuration that the executor was made from.
    pub closed spec fn configuration(self) -> AggregateExecutorConfig {
        self.config
    }

    pub fn descriptor(&self) -> (descriptor: &AggregateExecutorDescriptor)
        ensures
            *descriptor == self.described_by(),
    {
        &self.descriptor
    }

    pub fn config(&self) -> (config: &AggregateExecutorConfig)
        ensures
            *config == self.configuration(),
    {
        &self.config
    }
}

impl From<AggregateExecutor> for Executor {
    fn from(inner: AggregateExecutor) -> (executor: Executor) {
        Executor::Aggregate(inner)
    }
}

impl vstd::std_specs::convert::FromSpecImpl<AggregateExecutor> for Executor {
    open spec fn obeys_from_spec() -> bool {
        true
    }

    open spec fn from_spec(inner: AggregateExecutor) -> Executor {
        Executor::Aggregate(inner)
    }
}

#[derive(Debug, Eq, Hash)]
pub enum ExecutorDescriptor {
    Train(TrainExecutorDescriptor),
    Aggregate(AggregateExecutorDescriptor),
}

/// Descriptors are equal when they are of the same class and their names are equal.
impl PartialEq for ExecutorDescriptor {
    fn eq(&self, other: &ExecutorDescriptor) -> (equal: bool) {
        match (self, other) {
            (ExecutorDescriptor::Train(first), ExecutorDescriptor::Train(second)) => {
                *first == *second
            },
            (ExecutorDescriptor::Aggregate(first), ExecutorDescriptor::Aggregate(second)) => {
                *first == *second
            },
            _ => false,
        }
    }
}

impl vstd::std_specs::cmp::PartialEqSpecImpl for ExecutorDescriptor {
    open spec fn obeys_eq_spec() -> bool {
        true
    }

    open spec fn eq_spec(&self, other: &ExecutorDescriptor) -> bool {
        match (*self, *other) {
            (ExecutorDescriptor::Train(first), ExecutorDescriptor::Train(second)) => {
                first.text() == second.text()
            },
            (ExecutorDescriptor::Aggregate(first), ExecutorDescriptor::Aggregate(second)) => {
                first.text() == second.text()
            },
            _ => false,
        }
    }
}

impl Clone for ExecutorDescriptor {
    fn clone(&self) -> (copy: ExecutorDescriptor)
        ensures
            copy == *self,
    {
        match self {
            ExecutorDescriptor::Train(descriptor) => ExecutorDescriptor::Train(descriptor.clone()),
            ExecutorDescriptor::Aggregate(descriptor) => ExecutorDescriptor::Aggregate(
                descriptor.clone(),
            ),
        }
    }
}

#[derive(Clone, Debug)]
pub enum Executor {
    Train(TrainExecutor),
    Aggregate(AggregateExecutor),
}

impl Executor {
    /// The descriptor of the same class and name.
    pub open spec fn described_by(self) -> ExecutorDescriptor {
        match self {
            Executor::Train(executor) => ExecutorDescriptor::Train(executor.described_by()),
            Executor::Aggregate(executor) => ExecutorDescriptor::Aggregate(
                executor.described_by(),
            ),
        }
    }
}

/// The arms of [`Executor`] and [`ExecutorDescriptor`] match.
impl<'a> From<&'a Executor> for ExecutorDescriptor {
    fn from(executor: &'a Executor) -> (descriptor: ExecutorDescriptor) {
        match executor {
            Executor::Train(inner) => ExecutorDescriptor::Train(inner.descriptor.clone()),
            Executor::Aggregate(inner) => ExecutorDescriptor::Aggregate(inner.descriptor.clone()),
        }
    }
}

impl<'a> vstd::std_specs::convert::FromSpecImpl<&'a Executor> for ExecutorDescriptor {
    open spec fn obeys_from_spec() -> bool {
        true
    }

    open spec fn from_spec(executor: &'a Executor) -> ExecutorDescriptor {
        executor.described_by()
    }
}

#[derive(Clone, Copy, Debug)]
pub struct Nesterov {
    pub learning_rate: Double,
    pub momentum: Double,
}

#[derive(Clone, Copy, Debug)]
pub struct Adam {
    pub learning_rate: Double,
    pub betas: Option<[Double; 2]>,
    pub epsilon: Option<Double>,
}

#[derive(Clone, Copy, Debug)]
pub enum Loss {
    L1,
    Mse,
    CrossEntropy,
    BCEWithLogits,
    KLDiv,
}

#[derive(Clone, Copy, Debug)]
pub enum Scheduler {
    CosineWithWarmup { warmup_steps: i32, training_steps: i32 },
    LinearWithWarmup { warmup_steps: i32, training_steps: i32 },
    Wsd { warmup_steps: i32, decay_steps: i32 },
}

/// A descriptor is its name: two that were made from names are equal exactly when the names are,
/// the empty name included.
pub proof fn law_train_descriptors_are_their_names(
    first: TrainExecutorDescriptor,
    second: TrainExecutorDescriptor,
    name: Seq<char>,
    other: Seq<char>,
)
    requires
        first.text() == name,
        second.text() == other,
    ensures
        vstd::std_specs::cmp::PartialEqSpec::eq_spec(&first, &second) <==> name == other,
{
}

/// A descriptor is its name: two that were made from names are equal exactly when the names are,
/// the empty name included.
pub proof fn law_aggregate_descriptors_are_their_names(
    first: AggregateExecutorDescriptor,
    second: AggregateExecutorDescriptor,
    name: Seq<char>,
    other: Seq<char>,
)
    requires
        first.text() == name,
        second.text() == other,
    ensures
        vstd::std_specs::cmp::PartialEqSpec::eq_spec(&first, &second) <==> name == other,
{
}

/// An executor consists of its descriptor and its configuration, and of nothing else.
pub proof fn law_executor_is_descriptor_and_configuration(
    train: TrainExecutor,
    other_train: TrainExecutor,
    aggregate: AggregateExecutor,
    other_aggregate: AggregateExecutor,
)
    ensures
        train.described_by() == other_train.described_by() && train.configuration()
            == other_train.configuration() ==> train == other_train,
        aggregate.described_by() == other_aggregate.described_by() && aggregate.configuration()
            == other_aggregate.configuration() ==> aggregate == other_aggregate,
        Executor::Train(train).described_by() == ExecutorDescriptor::Train(train.described_by()),
        Executor::Aggregate(aggregate).described_by() == ExecutorDescriptor::Aggregate(
            aggregate.described_by(),
        ),
{
}

/// An executor is made of a descriptor and a configuration, tells both again, and stays of its
/// class; a descriptor is named as it was made.
pub proof fn law_executors_tell_what_they_are_made_of(
    name: &str,
    train: TrainExecutorDescriptor,
    aggregate: AggregateExecutorDescriptor,
    training: TrainExecutorConfig,
    aggregation: AggregateExecutorConfig,
    trainer: TrainExecutor,
    aggregator: AggregateExecutor,
    told: (&str, &str, &TrainExecutorConfig, &AggregateExecutorConfig),
    descriptors: (ExecutorDescriptor, ExecutorDescriptor),
)
    requires
        call_ensures(TrainExecutorDescriptor::new, (name,), train),
        call_ensures(AggregateExecutorDescriptor::new, (name,), aggregate),
        call_ensures(TrainExecutorDescriptor::name, (&train,), told.0),
        call_ensures(AggregateExecutorDescriptor::name, (&aggregate,), told.1),
        call_ensures(TrainExecutorDescriptor::into_executor, (train, training), trainer),
        call_ensures(
            AggregateExecutorDescriptor::into_executor,
            (aggregate, aggregation),
            aggregator,
        ),
        call_ensures(TrainExecutor::config, (&trainer,), told.2),
        call_ensures(AggregateExecutor::config, (&aggregator,), told.3),
        call_ensures(
            <ExecutorDescriptor as From<&Executor>>::from,
            (&Executor::Train(trainer),),
            descriptors.0,
        ),
        call_ensures(
            <ExecutorDescriptor as From<&Executor>>::from,
            (&Executor::Aggregate(aggregator),),
            descriptors.1,
        ),
    ensures
        told.0@ == name@,
        told.1@ == name@,
        *told.2 == training,
        *told.3 == aggregation,
        descriptors.0 matches ExecutorDescriptor::Train(named) && named.text() == name@,
        descriptors.1 matches ExecutorDescriptor::Aggregate(named) && named.text() == name@,
{
}

/// Executors and descriptors stay of their class, and stay what they are, when the class is left
/// open.
pub proof fn law_classes_are_kept(
    train: TrainExecutorDescriptor,
    aggregate: AggregateExecutorDescriptor,
    trainer: TrainExecutor,
    aggregator: AggregateExecutor,
    descriptors: (ExecutorDescriptor, ExecutorDescriptor),
    executors: (Executor, Executor),
)
    requires
        call_ensures(
            <ExecutorDescriptor as From<TrainExecutorDescriptor>>::from,
            (train,),
            descriptors.0,
        ),
        call_ensures(
            <ExecutorDescriptor as From<AggregateExecutorDescriptor>>::from,
            (aggregate,),
            descriptors.1,
        ),
        call_ensures(<Executor as From<TrainExecutor>>::from, (trainer,), executors.0),
        call_ensures(<Executor as From<AggregateExecutor>>::from, (aggregator,), executors.1),
    ensures
        descriptors.0 == ExecutorDescriptor::Train(train),
        descriptors.1 == ExecutorDescriptor::Aggregate(aggregate),
        executors.0 == Executor::Train(trainer),
        executors.1 == Executor::Aggregate(aggregator),
{
}

/// Descriptors of different classes are never equal; those of one class are equal exactly when
/// their names are.
pub proof fn law_equal_descriptors_are_of_one_class(
    train: TrainExecutorDescriptor,
    other_train: TrainExecutorDescriptor,
    aggregate: AggregateExecutorDescriptor,
    other_aggregate: AggregateExecutorDescriptor,
)
    ensures
        !vstd::std_specs::cmp::PartialEqSpec::eq_spec(
            &ExecutorDescriptor::Train(train),
            &ExecutorDescriptor::Aggregate(aggregate),
        ),
        !vstd::std_specs::cmp::PartialEqSpec::eq_spec(
            &ExecutorDescriptor::Aggregate(aggregate),
            &ExecutorDescriptor::Train(train),
        ),
        vstd::std_specs::cmp::PartialEqSpec::eq_spec(
            &ExecutorDescriptor::Train(train),
            &ExecutorDescriptor::Train(other_train),
        ) <==> train.text() == other_train.text(),
        vstd::std_specs::cmp::PartialEqSpec::eq_spec(
            &ExecutorDescriptor::Aggregate(aggregate),
            &ExecutorDescriptor::Aggregate(other_aggregate),
        ) <==> aggregate.text() == other_aggregate.text(),
{
}

} // verus!
