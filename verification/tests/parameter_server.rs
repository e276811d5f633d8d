use std::collections::HashMap;

use candle_core::{Device, Tensor};
use hypha::digest::{file_name, to_upper_hex};
use hypha::executor::parameter_server::{
    aggregation_of, backlog, finish_round, nesterov, update_momentum, work_dir_name, Aggregation,
    ExecutorError, IntakeStep, Merge, Step, TensorMerge, TensorOp, TensorOpError, AVERAGE_FILE,
    GRADIENT_FILE, MOMENTUM_FILE, MOMENTUM_UPDATE_FILE, TENSOR_DIR, UPDATE_FILE_MODE,
};
use hypha::ids::{PeerId, Uuid};
use hypha::messages::action::{AggregateStatus, ExecutorStatus};
use hypha::messages::executor::{
    Adam, AggregateExecutorConfig, AggregateExecutorDescriptor, Executor, JobSpec, Model,
    ModelType, Nesterov, TrainExecutorConfig, TrainExecutorDescriptor,
};
use hypha::messages::reference::{Fetch, Receive, SelectionStrategy, Send};
use hypha::number::Double;

fn double(value: f64) -> Double {
    Double { bits: value.to_bits() }
}

fn number(value: Double) -> f64 {
    f64::from_bits(value.bits)
}

fn optimizer(momentum: f64, learning_rate: f64) -> Nesterov {
    Nesterov { learning_rate: double(learning_rate), momentum: double(momentum) }
}

fn peer(n: u128) -> PeerId {
    PeerId { code: 0x12, size: 32, d0: n, d1: 0, d2: 0, d3: 0 }
}

fn combine(op: TensorOp, a: &Tensor, b: &Tensor) -> Tensor {
    match op {
        TensorOp::Average => (a + b).and_then(|t| t / 2.),
        TensorOp::Momentum { momentum } => (number(momentum) * b).and_then(|t| t + a),
        TensorOp::Nesterov { momentum, learning_rate } => (number(momentum) * b)
            .and_then(|t| t + a)
            .and_then(|t| number(learning_rate) * t),
    }
    .unwrap()
}

/// Carries the steps out on tensors by name, and returns what is sent.
fn perform(steps: Vec<Step>, files: &mut HashMap<String, Tensor>) -> Vec<Tensor> {
    let mut sent = Vec::new();
    for step in steps {
        match step {
            Step::Rename { from, to } => {
                let file = files.remove(&from).unwrap();
                files.insert(to, file);
            }
            Step::Copy { from, to } => {
                files.insert(to, files[&from].clone());
            }
            Step::Combine { op, first, second, into } => {
                files.insert(into, combine(op, &files[&first], &files[&second]));
            }
            Step::Send { file } => sent.push(files[&file].clone()),
            Step::Remove { file } => {
                files.remove(&file).unwrap();
            }
            Step::Report { request } => {
                assert!(matches!(
                    request.status,
                    ExecutorStatus::Aggregate(AggregateStatus::BroadcastedUpdate { metrics: None })
                ));
            }
        }
    }
    sent
}

fn tensor(values: Vec<f64>) -> Tensor {
    let len = values.len();
    Tensor::from_vec(values, len, &Device::Cpu).unwrap()
}

fn values(tensor: &Tensor) -> Vec<f64> {
    tensor.to_vec1::<f64>().unwrap()
}

#[test]
fn test_nesterov() {
    let mut files = HashMap::new();
    files.insert("gradient_file".to_string(), tensor(vec![0.5, 0.5, 0.5, 0.5, 0.5]));
    let steps = nesterov("gradient_file", files.contains_key(MOMENTUM_FILE), optimizer(0.7, 0.1));
    perform(steps, &mut files);
    assert_eq!(values(&files[GRADIENT_FILE]), vec![0.085, 0.085, 0.085, 0.085, 0.085]);

    files.insert("gradient_file".to_string(), tensor(vec![0.1, 0.2, 0.3, 0.4, 0.5]));
    let steps = nesterov("gradient_file", files.contains_key(MOMENTUM_FILE), optimizer(0.7, 0.1));
    perform(steps, &mut files);
    let difference = values(&files[GRADIENT_FILE])
        .into_iter()
        .zip(vec![0.0415, 0.0585, 0.0755, 0.0925, 0.1095])
        .fold(0f64, |acc, (a, b)| acc + (a - b).abs());
    assert!(difference < 0.000001)
}

#[test]
fn a_round_leaves_only_the_momentum() {
    let mut files = HashMap::new();
    files.insert("average".to_string(), tensor(vec![1.0]));
    let steps = finish_round("average".to_string(), false, optimizer(0.5, 2.0), Uuid { bits: 1 });
    let sent = perform(steps, &mut files);
    assert_eq!(sent.len(), 1);
    assert_eq!(values(&sent[0]), vec![3.0]);
    assert_eq!(files.keys().collect::<Vec<_>>(), vec![MOMENTUM_FILE]);
    assert_eq!(values(&files[MOMENTUM_FILE]), vec![1.0]);

    files.insert("average".to_string(), tensor(vec![4.0]));
    let steps = finish_round("average".to_string(), true, optimizer(0.5, 2.0), Uuid { bits: 1 });
    let sent = perform(steps, &mut files);
    assert_eq!(values(&sent[0]), vec![12.5]);
    assert_eq!(files.len(), 2);
    assert_eq!(values(&files[MOMENTUM_FILE]), vec![4.5]);
    assert_eq!(values(&files[MOMENTUM_UPDATE_FILE]), vec![4.5]);
}

#[test]
fn a_round_ends_with_a_report() {
    let steps = finish_round("x".to_string(), false, optimizer(0.5, 2.0), Uuid { bits: 6 });
    assert_eq!(steps.len(), 7);
    match &steps[0] {
        Step::Rename { from, to } => assert_eq!((from.as_str(), to.as_str()), ("x", AVERAGE_FILE)),
        other => panic!("unexpected step: {:?}", other),
    }
    match &steps[6] {
        Step::Report { request } => assert_eq!(request.job_id, Uuid { bits: 6 }),
        other => panic!("unexpected step: {:?}", other),
    }
}

#[test]
fn momentum_starts_with_the_gradient() {
    let steps = update_momentum("g", false, double(0.9));
    assert_eq!(steps.len(), 1);
    assert!(matches!(&steps[0], Step::Copy { from, to } if from == "g" && to == MOMENTUM_FILE));
    let steps = update_momentum("g", true, double(0.9));
    assert_eq!(steps.len(), 2);
    match &steps[0] {
        Step::Combine { op, first, second, into } => {
            assert_eq!(*op, TensorOp::Momentum { momentum: double(0.9) });
            assert_eq!(first, "g");
            assert_eq!(second, MOMENTUM_FILE);
            assert_eq!(into, MOMENTUM_UPDATE_FILE);
        }
        other => panic!("unexpected step: {:?}", other),
    }
}

#[test]
fn updates_are_averaged_one_by_one() {
    let mut aggregation = Aggregation::new(3);
    let first = aggregation.receive("a".to_string());
    assert!(matches!(first.merge, Merge::Adopt));
    assert!(first.finished.is_none());

    let second = aggregation.receive_as("b".to_string(), Uuid { bits: 0xAB });
    let name = "joined_00000000-0000-0000-0000-0000000000ab";
    match second.merge {
        Merge::Average { update, with, into } => {
            assert_eq!((update.as_str(), with.as_str(), into.as_str()), ("b", "a", name));
        }
        other => panic!("unexpected merge: {:?}", other),
    }
    assert!(second.finished.is_none());

    let third = aggregation.receive("c".to_string());
    match third.merge {
        Merge::Average { update, with, into } => {
            assert_eq!((update.as_str(), with.as_str()), ("c", name));
            assert_eq!(third.finished.as_deref(), Some(into.as_str()));
            assert!(into.starts_with("joined_"));
            assert_ne!(into, name);
            assert_eq!(into.len(), 43);
        }
        other => panic!("unexpected merge: {:?}", other),
    }

    let next = aggregation.receive("a".to_string());
    assert!(matches!(next.merge, Merge::Adopt));
}

#[test]
fn a_single_worker_finishes_at_once() {
    let mut aggregation = Aggregation::new(1);
    for _ in 0..3 {
        let received = aggregation.receive("a".to_string());
        assert!(matches!(received.merge, Merge::Adopt));
        assert_eq!(received.finished.as_deref(), Some("a"));
    }
}

#[test]
fn without_workers_no_round_finishes() {
    let mut aggregation = Aggregation::new(0);
    for _ in 0..3 {
        assert!(aggregation.receive("a".to_string()).finished.is_none());
    }
}

#[test]
fn only_whole_updates_are_announced() {
    let step = IntakeStep::Create;
    assert_eq!(step.next(false), IntakeStep::Done);
    let step = step.next(true);
    assert_eq!(step, IntakeStep::Write);
    assert_eq!(step.next(false), IntakeStep::Discard);
    assert_eq!(step.next(false).next(true), IntakeStep::Done);
    let step = step.next(true);
    assert_eq!(step, IntakeStep::Restrict);
    assert_eq!(step.next(false), IntakeStep::Announce);
    assert_eq!(step.next(true).next(true), IntakeStep::Done);
    assert_eq!(UPDATE_FILE_MODE, 0o600);
}

#[test]
fn tensors_are_paired_by_name() {
    let mut merge = TensorMerge::new();
    let first = merge.pair("layer.0", true);
    assert_eq!(first, Some(format!("{TENSOR_DIR}/{}", file_name("layer.0"))));
    assert_eq!(merge.pair("layer.1", false), None);
    let third = merge.pair("layer.2", true);
    assert_eq!(merge.finish(), Some(vec![first.unwrap(), third.unwrap()]));

    let mut merge = TensorMerge::new();
    assert_eq!(merge.pair("layer.0", false), None);
    assert_eq!(merge.finish(), None);
}

#[test]
fn tensors_never_take_the_place_of_updates() {
    let name = "12D3KooW";
    let update = file_name(name);
    let mut merge = TensorMerge::new();
    let tensor = merge.pair(name, true).unwrap();
    assert_ne!(tensor, update);
    assert!(tensor.starts_with("tensors/"));
    for file in [AVERAGE_FILE, GRADIENT_FILE, MOMENTUM_FILE, MOMENTUM_UPDATE_FILE, &update] {
        assert_ne!(file, TENSOR_DIR);
        assert!(!file.starts_with("tensors/"));
    }
}

#[test]
fn file_names_are_digests() {
    assert_eq!(
        file_name("abc"),
        "BA7816BF8F01CFEA414140DE5DAE2223B00361A396177A9CB410FF61F20015AD"
    );
    assert_eq!(
        file_name("../../etc/passwd"),
        format!("{:X}", <sha2::Sha256 as sha2::Digest>::digest("../../etc/passwd"))
    );
    assert_ne!(file_name("a"), file_name("b"));
    assert_eq!(to_upper_hex(&vec![0x00, 0x9A, 0xFF]), "009AFF");
    assert_eq!(to_upper_hex(&vec![]), "");
}

#[test]
fn work_directories_are_named_after_jobs() {
    let id = Uuid { bits: 0x0123456789abcdef0123456789abcdef };
    assert_eq!(work_dir_name(id), "hypha-01234567-89ab-cdef-0123-456789abcdef");
}

#[test]
fn the_backlog_holds_two_updates_per_worker() {
    assert_eq!(backlog(0), 2);
    assert_eq!(backlog(1), 2);
    assert_eq!(backlog(4), 8);
}

#[test]
fn a_parameter_server_runs_aggregations_only() {
    let config = AggregateExecutorConfig {
        updates: Receive::peers(vec![peer(1), peer(2)]),
        results: Send::peers(vec![peer(1), peer(2)], SelectionStrategy::All),
        optimizer: optimizer(0.9, 0.7),
    };
    let executor = AggregateExecutorDescriptor::new("parameter-server").into_executor(config);
    let job = JobSpec { job_id: Uuid { bits: 1 }, executor: Executor::from(executor) };
    let config = aggregation_of(&job).expect("an aggregation");
    assert_eq!(config.updates.get_peers().len(), 2);
    assert_eq!(config.optimizer.momentum, double(0.9));

    let config = TrainExecutorConfig {
        model: Model {
            task: ModelType::Auto,
            artifact: Fetch::uri("file:///model".to_string()),
            input_names: vec![],
        },
        data: Fetch::scheduler(peer(3), "mnist".to_string()),
        updates: Send::peers(vec![peer(1)], SelectionStrategy::One),
        results: Receive::peers(vec![peer(1)]),
        optimizer: Adam { learning_rate: double(0.1), betas: None, epsilon: None },
        batch_size: 1,
        preprocessor: None,
        scheduler: None,
    };
    let executor = TrainExecutorDescriptor::new("train").into_executor(config);
    let job = JobSpec { job_id: Uuid { bits: 1 }, executor: Executor::from(executor) };
    assert_eq!(aggregation_of(&job).err(), Some(ExecutorError::UnsupportedJobSpec));
}

#[test]
fn tensor_errors_say_what_they_are() {
    let reason = "broken".to_string();
    assert_eq!(TensorOpError::Candle(reason.clone()).to_string(), "Candle core error: broken");
    assert_eq!(TensorOpError::Safetensor(reason.clone()).to_string(), "Safetensors error: broken");
    assert_eq!(TensorOpError::Io(reason).to_string(), "I/O error: broken");
}
