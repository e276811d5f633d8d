//! Configuration of the training job that a scheduler runs.

use vstd::prelude::*;

use crate::messages::executor::{
    Adam, Model, ModelType, Nesterov, Preprocessor, PreprocessorType,
};
use crate::messages::reference::{chars_of, Fetch, ReferenceView};
use crate::number::Double;
use crate::resources::Resources;
use crate::text::{copy_texts, texts};

verus! {

#[derive(Clone, Debug)]
pub struct SchedulerConfig {
    pub job: Job,
}

impl Default for SchedulerConfig {
    fn default() -> (config: SchedulerConfig)
        ensures
            config.job matches Job::Diloco(diloco) && diloco.is_default(),
    {
        SchedulerConfig { job: Job::Diloco(DiLoCo::default()) }
    }
}

#[derive(Clone, Debug)]
pub enum Job {
    Diloco(DiLoCo),
}

#[derive(Clone, Debug)]
pub struct DiLoCo {
    pub model: ModelSource,
    pub preprocessor: Option<PreprocessorSource>,
    pub dataset: DataNodeSource,
    pub rounds: DiLoCoRounds,
    pub inner_optimizer: Adam,
    pub outer_optimizer: Nesterov,
    pub resources: DiLoCoResources,
    pub model_destination: Option<ModelDestiantion>,
}

#[derive(Clone, Copy, Debug, PartialEq, Eq, Structural)]
pub struct PriceRange {
    pub bid: Double,
    pub max: Double,
}

/// The number 0.7, as near as a double comes.
pub const SEVEN_TENTHS: u64 = 0x3FE6_6666_6666_6666;

/// The number 0.9, as near as a double comes.
pub const NINE_TENTHS: u64 = 0x3FEC_CCCC_CCCC_CCCD;

/// The number 0.001, as near as a double comes.
pub const ONE_THOUSANDTH: u64 = 0x3F50_624D_D2F1_A9FC;

/// The number 1.
pub const ONE: u64 = 0x3FF0_0000_0000_0000;

/// The number 10.
pub const TEN: u64 = 0x4024_0000_0000_0000;

/// The number 100.
pub const HUNDRED: u64 = 0x4059_0000_0000_0000;

impl PriceRange {
    /// A hundred for the bid and for the maximum.
    pub open spec fn standard() -> PriceRange {
        PriceRange { bid: Double { bits: HUNDRED }, max: Double { bits: HUNDRED } }
    }
}

impl Default for PriceRange {
    fn default() -> (range: PriceRange)
        ensures
            range == PriceRange::standard(),
    {
        PriceRange { bid: Double { bits: HUNDRED }, max: Double { bits: HUNDRED } }
    }
}

impl DiLoCo {
    /// Whether this is the job that trains a small image classifier on two workers.
    pub open spec fn is_default(self) -> bool {
        &&& self.model.is_lenet()
        &&& self.preprocessor matches Some(preprocessor) && preprocessor.is_lenet()
        &&& self.dataset.dataset@ == "mnist"@
        &&& self.rounds == DiLoCoRounds {
            update_rounds: 100,
            avg_samples_between_updates: 1200,
            max_batch_size: Some(600u32),
        }
        &&& self.inner_optimizer == Adam {
            learning_rate: Double { bits: ONE_THOUSANDTH },
            betas: None,
            epsilon: None,
        }
        &&& self.outer_optimizer == Nesterov {
            learning_rate: Double { bits: SEVEN_TENTHS },
            momentum: Double { bits: NINE_TENTHS },
        }
        &&& self.resources == DiLoCoResources {
            num_workers: 2,
            worker: Resources {
                cpu: Double { bits: ONE },
                gpu: Double { bits: TEN },
                memory: Double { bits: ONE },
            },
            parameter_server: Resources {
                cpu: Double { bits: ONE },
                gpu: Double { bits: 0 },
                memory: Double { bits: ONE },
            },
            worker_price: PriceRange::standard(),
            parameter_server_price: PriceRange::standard(),
            worker_pool: PoolSettings { min: 2, target: 2, grace_ms: 10_000 },
            parameter_server_pool: PoolSettings { min: 1, target: 1, grace_ms: 10_000 },
        }
        &&& self.model_destination is None
    }
}

impl Default for DiLoCo {
    fn default() -> (job: DiLoCo)
        ensures
            job.is_default(),
    {
        let one = Double { bits: ONE };
        let ten = Double { bits: TEN };
        DiLoCo {
            model: ModelSource::lenet(),
            preprocessor: Some(PreprocessorSource::lenet()),
            dataset: DataNodeSource { dataset: "mnist".to_owned() },
            rounds: DiLoCoRounds {
                update_rounds: 100,
                avg_samples_between_updates: 1200,
                max_batch_size: Some(600),
            },
            inner_optimizer: Adam {
                learning_rate: Double { bits: ONE_THOUSANDTH },
                betas: None,
                epsilon: None,
            },
            outer_optimizer: Nesterov {
                learning_rate: Double { bits: SEVEN_TENTHS },
                momentum: Double { bits: NINE_TENTHS },
            },
            resources: DiLoCoResources {
                num_workers: 2,
                worker: Resources::default().with_gpu(ten).with_cpu(one).with_memory(one),
                parameter_server: Resources::default().with_cpu(one).with_memory(one),
                worker_price: PriceRange::default(),
                parameter_server_price: PriceRange::default(),
                worker_pool: PoolSettings {
                    min: 2,
                    target: 2,
                    grace_ms: PoolSettings::default_grace_ms(),
                },
                parameter_server_pool: PoolSettings {
                    min: 1,
                    target: 1,
                    grace_ms: PoolSettings::default_grace_ms(),
                },
            },
            model_destination: None,
        }
    }
}

#[derive(Debug)]
pub struct ModelSource {
    pub repository: String,
    pub revision: Option<String>,
    pub filenames: Vec<String>,
    pub token: Option<String>,
    pub model_type: ModelType,
    pub input_names: Vec<String>,
}

/// A reference to files of a repository of models.
pub open spec fn hub_files(
    repository: String,
    revision: Option<String>,
    filenames: Vec<String>,
    token: Option<String>,
) -> ReferenceView {
    ReferenceView::HuggingFace {
        repository: repository@,
        revision: chars_of(revision),
        filenames: texts(filenames@),
        token: chars_of(token),
    }
}

impl ModelSource {
    pub open spec fn is_lenet(self) -> bool {
        &&& self.repository@ == "hypha-space/lenet"@
        &&& self.revision is None
        &&& texts(self.filenames@) == seq![
            "config.json"@,
            "model.safetensors"@,
            "configuration_lenet.py"@,
            "modeling_lenet.py"@,
        ]
        &&& self.token is None
        &&& self.model_type == ModelType::ImageClassification
        &&& texts(self.input_names@) == seq!["pixel_values"@, "labels"@]
    }

    fn lenet() -> (source: ModelSource)
        ensures
            source.is_lenet(),
    {
        let mut filenames: Vec<String> = Vec::new();
        filenames.push("config.json".to_owned());
        filenames.push("model.safetensors".to_owned());
        filenames.push("configuration_lenet.py".to_owned());
        filenames.push("modeling_lenet.py".to_owned());
        let mut input_names: Vec<String> = Vec::new();
        input_names.push("pixel_values".to_owned());
        input_names.push("labels".to_owned());
        assert(texts(filenames@) =~= seq![
            "config.json"@,
            "model.safetensors"@,
            "configuration_lenet.py"@,
            "modeling_lenet.py"@,
        ]);
        assert(texts(input_names@) =~= seq!["pixel_values"@, "labels"@]);
        ModelSource {
            repository: "hypha-space/lenet".to_owned(),
            revision: None,
            filenames,
            token: None,
            model_type: ModelType::ImageClassification,
            input_names,
        }
    }
}

impl Clone for ModelSource {
    fn clone(&self) -> (copy: ModelSource)
        ensures
            copy.repository == self.repository,
            copy.revision == self.revision,
            copy.filenames@ == self.filenames@,
            copy.token == self.token,
            copy.model_type == self.model_type,
            copy.input_names@ == self.input_names@,
    {
        ModelSource {
            repository: self.repository.clone(),
            revision: self.revision.clone(),
            filenames: copy_texts(&self.filenames),
            token: self.token.clone(),
            model_type: self.model_type,
            input_names: copy_texts(&self.input_names),
        }
    }
}

impl From<ModelSource> for Model {
    fn from(source: ModelSource) -> (model: Model)
        ensures
            model.task == source.model_type,
            model.artifact.reference()@ == hub_files(
                source.repository,
                source.revision,
                source.filenames,
                source.token,
            ),
            model.input_names == source.input_names,
    {
        Model {
            task: source.model_type,
            artifact: Fetch::huggingface(
                source.repository,
                source.revision,
                source.filenames,
                source.token,
            ),
            input_names: source.input_names,
        }
    }
}

impl vstd::std_specs::convert::FromSpecImpl<ModelSource> for Model {
    open spec fn obeys_from_spec() -> bool {
        false
    }

    open spec fn from_spec(source: ModelSource) -> Model {
        arbitrary()
    }
}

#[derive(Clone, Debug)]
pub struct ModelDestiantion {
    pub repository: String,
    pub token: String,
}

#[derive(Debug)]
pub struct PreprocessorSource {
    pub repository: String,
    pub revision: Option<String>,
    pub filenames: Vec<String>,
    pub token: Option<String>,
    pub preprocessor_type: PreprocessorType,
    pub input_names: Vec<String>,
}

impl PreprocessorSource {
    pub open spec fn is_lenet(self) -> bool {
        &&& self.repository@ == "hypha-space/lenet"@
        &&& self.revision is None
        &&& texts(self.filenames@) == seq!["preprocessor_config.json"@]
        &&& self.token is None
        &&& self.preprocessor_type == PreprocessorType::Image
        &&& texts(self.input_names@) == seq!["images"@]
    }

    fn lenet() -> (source: PreprocessorSource)
        ensures
            source.is_lenet(),
    {
        let mut filenames: Vec<String> = Vec::new();
        filenames.push("preprocessor_config.json".to_owned());
        let mut input_names: Vec<String> = Vec::new();
        input_names.push("images".to_owned());
        assert(texts(filenames@) =~= seq!["preprocessor_config.json"@]);
        assert(texts(input_names@) =~= seq!["images"@]);
        PreprocessorSource {
            repository: "hypha-space/lenet".to_owned(),
            revision: None,
            filenames,
            token: None,
            preprocessor_type: PreprocessorType::Image,
            input_names,
        }
    }
}

impl Clone for PreprocessorSource {
    fn clone(&self) -> (copy: PreprocessorSource)
        ensures
            copy.repository == self.repository,
            copy.revision == self.revision,
            copy.filenames@ == self.filenames@,
            copy.token == self.token,
            copy.preprocessor_type == self.preprocessor_type,
            copy.input_names@ == self.input_names@,
    {
        PreprocessorSource {
            repository: self.repository.clone(),
            revision: self.revision.clone(),
            filenames: copy_texts(&self.filenames),
            token: self.token.clone(),
            preprocessor_type: self.preprocessor_type,
            input_names: copy_texts(&self.input_names),
        }
    }
}

impl From<PreprocessorSource> for Preprocessor {
    fn from(source: PreprocessorSource) -> (preprocessor: Preprocessor)
        ensures
            preprocessor.task == source.preprocessor_type,
            preprocessor.artifact.reference()@ == hub_files(
                source.repository,
                source.revision,
                source.filenames,
                source.token,
            ),
            preprocessor.input_names == source.input_names,
    {
        Preprocessor {
            task: source.preprocessor_type,
            artifact: Fetch::huggingface(
                source.repository,
                source.revision,
                source.filenames,
                source.token,
            ),
            input_names: source.input_names,
        }
    }
}

impl vstd::std_specs::convert::FromSpecImpl<PreprocessorSource> for Preprocessor {
    open spec fn obeys_from_spec() -> bool {
        false
    }

    open spec fn from_spec(source: PreprocessorSource) -> Preprocessor {
        arbitrary()
    }
}

#[derive(Clone, Debug)]
pub struct DataNodeSource {
    pub dataset: String,
}

#[derive(Clone, Copy, Debug)]
pub struct DiLoCoRounds {
    pub avg_samples_between_updates: u32,
    pub update_rounds: u32,
    pub max_batch_size: Option<u32>,
}

#[derive(Clone, Copy, Debug, PartialEq, Eq, Structural)]
pub struct PoolSettings {
    /// Minimum number of members required.
    pub min: u32,
    /// Target number of members to pursue.
    pub target: u32,
    /// Grace period (milliseconds) before failing when below min.
    pub grace_ms: u64,
}

impl PoolSettings {
    pub fn default_grace_ms() -> (grace_ms: u64)
        ensures
            grace_ms == 10_000,
    {
        10_000
    }
}

impl Default for PoolSettings {
    fn default() -> (settings: PoolSettings)
        ensures
            settings == (PoolSettings { min: 1, target: 1, grace_ms: 10_000 }),
    {
        PoolSettings { min: 1, target: 1, grace_ms: Self::default_grace_ms() }
    }
}

#[derive(Clone, Copy, Debug)]
pub struct DiLoCoResources {
    pub num_workers: u32,
    pub worker: Resources,
    pub parameter_server: Resources,
    pub worker_price: PriceRange,
    pub parameter_server_price: PriceRange,
    pub worker_pool: PoolSettings,
    pub parameter_server_pool: PoolSettings,
}

/// A model is that of its source: its task, its inputs, and the files of its repository, at its
/// revision and with its token.
pub proof fn law_models_are_those_of_their_source(source: ModelSource, model: Model, i: int)
    requires
        call_ensures(<Model as From<ModelSource>>::from, (source,), model),
    ensures
        model.task == source.model_type,
        model.input_names@.len() == source.input_names@.len(),
        0 <= i < source.input_names@.len() ==> model.input_names@[i] == source.input_names@[i],
        ({
            let named = model.artifact.reference();
            &&& named is HuggingFace
            &&& named->repository@ == source.repository@
            &&& named->revision is Some <==> source.revision is Some
            &&& named->revision is Some ==> named->revision->0@ == source.revision->0@
            &&& named->token is Some <==> source.token is Some
            &&& named->token is Some ==> named->token->0@ == source.token->0@
            &&& named->filenames@.len() == source.filenames@.len()
            &&& 0 <= i < source.filenames@.len() ==> named->filenames@[i]@
                == source.filenames@[i]@
        }),
{
    let named = model.artifact.reference()->filenames@;
    assert(texts(named).len() == named.len());
    assert(texts(source.filenames@).len() == source.filenames@.len());
    if 0 <= i < source.filenames@.len() {
        assert(texts(named)[i] == named[i]@);
        assert(texts(source.filenames@)[i] == source.filenames@[i]@);
    }
}

/// A preprocessor is that of its source: its task, its inputs, and the files of its repository, at
/// its revision and with its token.
pub proof fn law_preprocessors_are_those_of_their_source(
    source: PreprocessorSource,
    made: Preprocessor,
    i: int,
)
    requires
        call_ensures(<Preprocessor as From<PreprocessorSource>>::from, (source,), made),
    ensures
        made.task == source.preprocessor_type,
        made.input_names@.len() == source.input_names@.len(),
        0 <= i < source.input_names@.len() ==> made.input_names@[i] == source.input_names@[i],
        ({
            let named = made.artifact.reference();
            &&& named is HuggingFace
            &&& named->repository@ == source.repository@
            &&& named->revision is Some <==> source.revision is Some
            &&& named->revision is Some ==> named->revision->0@ == source.revision->0@
            &&& named->token is Some <==> source.token is Some
            &&& named->token is Some ==> named->token->0@ == source.token->0@
            &&& named->filenames@.len() == source.filenames@.len()
            &&& 0 <= i < source.filenames@.len() ==> named->filenames@[i]@
                == source.filenames@[i]@
        }),
{
    let named = made.artifact.reference()->filenames@;
    assert(texts(named).len() == named.len());
    assert(texts(source.filenames@).len() == source.filenames@.len());
    if 0 <= i < source.filenames@.len() {
        assert(texts(named)[i] == named[i]@);
        assert(texts(source.filenames@)[i] == source.filenames@[i]@);
    }
}

} // verus!
