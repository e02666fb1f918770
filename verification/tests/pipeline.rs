use std::cell::RefCell;
use std::rc::Rc;

use anon_pipeline::anonymity_protocol::AnonymityProtocolEngine;
use anon_pipeline::binding::{
    tick_report, AnonymityBindingPump, BindingPump, EpochTransportFactory, Phase9BindingPump,
    PumpFailure, TickReport, MAX_RELEASE_BATCH,
};
use anon_pipeline::delay::{
    check_uniform_bounds, uniform_sample, DelayDistribution, DelayQueue, DistributionError,
    UniformDelay,
};
use anon_pipeline::heap::{PendingFrame, PendingHeap};
use anon_pipeline::invariants::LegacyPhase;
use anon_pipeline::mixing::MixingPool;
use anon_pipeline::observability::{snapshot, ObservabilityLevel, ObservabilityState};
use anon_pipeline::path_epoch::{
    pick_index, select_index, EpochDurationDistribution, PathEpoch, PathEpochError,
    UniformEpochDuration,
};
use anon_pipeline::protocol_engine::ProtocolEngine;
use anon_pipeline::connection_table::RelayLimits;
use anon_pipeline::rng::{be64_byte, DeterministicRng, RandomSource};
use anon_pipeline::transport_adapter::{
    FakeTransportAdapter, TransportAdapter, TransportCallbacks, TransportError, TransportHandle,
};

fn sorted(mut frames: Vec<Vec<u8>>) -> Vec<Vec<u8>> {
    frames.sort();
    frames
}

#[test]
fn mixing_epoch_containment_scenario() {
    let mut pool = MixingPool::with_rng(RandomSource::seeded(7));
    pool.enqueue(vec![1]);
    pool.enqueue(vec![2]);
    pool.enqueue(vec![3]);
    assert_eq!(pool.current_len(), 0);
    assert_eq!(pool.pending_len(), 3);
    let first = pool.drain_batch(10);
    assert_eq!(sorted(first.clone()), vec![vec![1], vec![2], vec![3]]);
    pool.enqueue(vec![4]);
    assert!(!first.contains(&vec![4]));
    let second = pool.drain_batch(10);
    assert_eq!(second, vec![vec![4]]);
    assert_eq!(pool.drain_batch(10), Vec::<Vec<u8>>::new());
}

#[test]
fn mixing_holds_new_frames_until_the_epoch_is_drained() {
    let mut pool = MixingPool::with_rng(RandomSource::seeded(11));
    for i in 0..4u8 {
        pool.enqueue(vec![i]);
    }
    let first = pool.drain_batch(2);
    assert_eq!(first.len(), 2);
    assert_eq!(pool.current_len(), 2);
    pool.enqueue(vec![100]);
    let second = pool.drain_batch(2);
    assert_eq!(second.len(), 2);
    assert!(!second.contains(&vec![100]));
    let mut all = first;
    all.extend(second);
    assert_eq!(sorted(all), vec![vec![0], vec![1], vec![2], vec![3]]);
    assert_eq!(pool.drain_batch(5), vec![vec![100]]);
}

#[test]
fn mixing_changes_epochs_at_the_start_of_a_drain_only() {
    let mut pool = MixingPool::new();
    pool.enqueue(vec![1]);
    pool.enqueue(vec![2]);
    pool.enqueue(vec![3]);
    let first = pool.drain_batch(2);
    assert_eq!(first.len(), 2);
    pool.enqueue(vec![4]);
    let second = pool.drain_batch(10);
    assert_eq!(second.len(), 1);
    assert!(!second.contains(&vec![4]));
    assert!(!first.contains(&second[0]));
    let mut cohort = first;
    cohort.extend(second);
    assert_eq!(sorted(cohort), vec![vec![1], vec![2], vec![3]]);
    assert_eq!(pool.drain_batch(10), vec![vec![4]]);
}

#[test]
fn mixing_drain_of_zero_touches_nothing() {
    let mut pool = MixingPool::with_rng(RandomSource::seeded(3));
    pool.enqueue(vec![9]);
    assert_eq!(pool.drain_batch(0), Vec::<Vec<u8>>::new());
    assert_eq!(pool.current_len(), 0);
    assert_eq!(pool.pending_len(), 1);
    let mut os_pool = MixingPool::new();
    os_pool.enqueue(vec![1]);
    os_pool.enqueue(vec![2]);
    assert_eq!(sorted(os_pool.drain_batch(2)), vec![vec![1], vec![2]]);
}

#[test]
fn mixing_shuffle_changes_the_order() {
    let mut pool = MixingPool::with_rng(RandomSource::seeded(0xA11CE5EED));
    let input: Vec<Vec<u8>> = (0..64u8).map(|i| vec![i]).collect();
    for frame in &input {
        pool.enqueue(frame.clone());
    }
    let out = pool.drain_batch(64);
    let mut reversed = input.clone();
    reversed.reverse();
    assert_ne!(out, input);
    assert_ne!(out, reversed);
    assert_eq!(sorted(out), input);
}

#[test]
fn splitmix_draws_are_the_known_ones() {
    let mut rng = DeterministicRng::new(0);
    assert_eq!(rng.next_splitmix(), 0xE220A8397B1DCDAF);
    assert_eq!(rng.next_u64(), 0x6E789E6AA1B965F4);
    assert_eq!(rng.next_u32(), 0x8009454F);
    assert_eq!(rng.state, 0x9E3779B97F4A7C15u64.wrapping_mul(3));
    let mut a = RandomSource::seeded(0);
    assert_eq!(a.next_u64(), 0xE220A8397B1DCDAF);
    let mut filler = DeterministicRng::new(0);
    let mut dest = vec![0u8; 11];
    filler.fill_bytes(&mut dest);
    assert_eq!(
        dest,
        vec![0xE2, 0x20, 0xA8, 0x39, 0x7B, 0x1D, 0xCD, 0xAF, 0x6E, 0x78, 0x9E]
    );
    assert_eq!(be64_byte(0x0102030405060708, 0), 1);
    assert_eq!(be64_byte(0x0102030405060708, 7), 8);
    let mut os = RandomSource::os();
    let _ = os.next_u64();
}

#[test]
fn uniform_bounds_are_checked() {
    assert_eq!(UniformDelay::new(0, 5).err(), Some(DistributionError::ZeroMin));
    assert_eq!(UniformDelay::new(5, 4).err(), Some(DistributionError::MaxBelowMin));
    let big = u64::MAX as u128 + 1;
    assert_eq!(UniformDelay::new(big, big).err(), Some(DistributionError::MinTooLarge));
    assert_eq!(UniformDelay::new(1, big).err(), Some(DistributionError::MaxTooLarge));
    assert_eq!(check_uniform_bounds(3, 9), Ok((3, 9)));
    let d = UniformDelay::new(3, 9).unwrap();
    assert_eq!(d.min_ns(), 3);
    assert_eq!(d.max_ns(), 9);
    assert_eq!(d.max_delay(), 9);
    assert_eq!(UniformEpochDuration::new(0, 1).err(), Some(DistributionError::ZeroMin));
    assert_eq!(UniformEpochDuration::new(2, 1).err(), Some(DistributionError::MaxBelowMin));
    assert_eq!(UniformEpochDuration::new(4, 4).unwrap().max_duration(), 4);
}

#[test]
fn uniform_sample_maps_draws_into_the_range() {
    assert_eq!(uniform_sample(10, 20, 25), 13);
    assert_eq!(uniform_sample(10, 20, 0), 10);
    assert_eq!(uniform_sample(10, 20, 10), 20);
    assert_eq!(uniform_sample(10, 20, 11), 10);
    assert_eq!(uniform_sample(7, 7, 12345), 7);
    assert_eq!(uniform_sample(1, u64::MAX, u64::MAX), 1);
    assert_eq!(uniform_sample(1, u64::MAX, 5), 6);
    let mut rng = RandomSource::seeded(1);
    let mut d = UniformDelay::new(100, 200).unwrap();
    for _ in 0..1000 {
        let s = d.sample_delay(&mut rng);
        assert!((100..=200).contains(&s));
    }
    let mut e = UniformEpochDuration::new(5, 6).unwrap();
    for _ in 0..100 {
        let s = e.sample_duration(&mut rng);
        assert!(s == 5 || s == 6);
    }
}

#[test]
fn heap_hands_out_entries_in_key_order() {
    let mut heap = PendingHeap::new();
    let keys = [(5u64, 9u64), (3, 1), (5, 2), (1, 7), (3, 0), (9, 9), (1, 1)];
    for (i, (ready_at, nonce)) in keys.iter().enumerate() {
        heap.push(PendingFrame { ready_at: *ready_at, nonce: *nonce, frame: vec![i as u8] });
    }
    assert_eq!(heap.len(), 7);
    assert_eq!(heap.peek_ready_at(), Some(1));
    let mut out = Vec::new();
    while let Some(entry) = heap.pop_min() {
        out.push((entry.ready_at, entry.nonce, entry.frame[0]));
    }
    assert_eq!(
        out,
        vec![(1, 1, 6), (1, 7, 3), (3, 0, 4), (3, 1, 1), (5, 2, 2), (5, 9, 0), (9, 9, 5)]
    );
    assert_eq!(heap.peek_ready_at(), None);
    assert!(heap.pop_min().is_none());
}

#[test]
fn delay_queue_keeps_the_delay_bounds() {
    let delay = UniformDelay::new(1_000, 5_000).unwrap();
    let mut queue = DelayQueue::with_rng(delay, RandomSource::seeded(0xD1A1A7E));
    let now = 1_000_000u64;
    assert!(queue.can_enqueue_at(now));
    assert!(!queue.can_enqueue_at(u64::MAX - 10));
    for i in 0..200u8 {
        queue.enqueue_at(now, vec![i]);
    }
    assert_eq!(queue.pending_len(), 200);
    assert_eq!(queue.max_delay(), 5_000);
    assert!(queue.drain_ready_at(now + 999, 1000).is_empty());
    assert_eq!(queue.pending_len(), 200);
    let mut seen = Vec::new();
    let mut last_len = 0;
    for t in (now + 1_000)..=(now + 5_000) {
        let released = queue.drain_ready_at(t, 1000);
        seen.extend(released);
        assert!(seen.len() >= last_len);
        last_len = seen.len();
    }
    assert_eq!(seen.len(), 200);
    assert_eq!(queue.pending_len(), 0);
    assert_eq!(sorted(seen), (0..200u8).map(|i| vec![i]).collect::<Vec<_>>());
}

#[test]
fn delay_queue_edge_cases() {
    let delay = UniformDelay::new(10, 10).unwrap();
    let mut queue = DelayQueue::new(delay);
    assert!(queue.drain_ready_at(5, 8).is_empty());
    queue.enqueue_at(0, vec![1]);
    queue.enqueue_at(0, vec![2]);
    queue.enqueue_at(0, vec![3]);
    assert!(queue.drain_ready_at(10, 0).is_empty());
    assert_eq!(queue.pending_len(), 3);
    assert!(queue.drain_ready_at(9, 8).is_empty());
    assert_eq!(queue.pending_len(), 3);
    let first = queue.drain_ready_at(10, 2);
    assert_eq!(first.len(), 2);
    assert_eq!(queue.pending_len(), 0);
    assert_eq!(queue.ready_len(), 1);
    let second = queue.drain_ready_at(10, 2);
    assert_eq!(second.len(), 1);
    let mut all = first;
    all.extend(second);
    assert_eq!(sorted(all), vec![vec![1], vec![2], vec![3]]);
}

#[test]
fn path_rotation_scenario() {
    let duration = UniformEpochDuration::new(1_000, 2_000).unwrap();
    let mut epoch =
        PathEpoch::with_rng(vec!['A', 'B', 'C'], duration, RandomSource::seeded(42), 0).unwrap();
    assert_eq!(epoch.path_count(), 3);
    assert!((1_000..=2_000).contains(&epoch.next_rotation()));
    let mut now = 0u64;
    let mut previous = *epoch.current_path();
    assert!(!epoch.is_due(now));
    assert!(!epoch.rotate_if_due(now));
    assert_eq!(*epoch.current_path(), previous);
    for _ in 0..5 {
        now = epoch.next_rotation() + 1;
        assert!(epoch.is_due(now));
        assert!(epoch.can_schedule_at(now));
        assert!(epoch.rotate_if_due(now));
        let current = *epoch.current_path();
        assert_ne!(current, previous);
        assert_eq!(*epoch.path_at(epoch.current_index()), current);
        assert!((1_000..=2_000).contains(&(epoch.next_rotation() - now)));
        previous = current;
    }
    let _nonce = epoch.epoch_nonce();
    assert_eq!(epoch.max_duration(), 2_000);
}

#[test]
fn path_selection_rules() {
    assert_eq!(pick_index(3, 7), 1);
    assert_eq!(select_index(0, 3, 7), 1);
    assert_eq!(select_index(1, 3, 7), 2);
    assert_eq!(select_index(2, 3, 8), 0);
    assert_eq!(select_index(0, 1, 12345), 0);
    assert_eq!(select_index(1, 2, 3), 0);
    let duration = UniformEpochDuration::new(1, 1).unwrap();
    let empty: Vec<u8> = vec![];
    assert_eq!(
        PathEpoch::with_rng(empty, duration, RandomSource::seeded(1), 0).err(),
        Some(PathEpochError::EmptyPaths)
    );
    let mut single = PathEpoch::new(vec![9u8], duration, 0).unwrap();
    assert_eq!(single.next_index(), 0);
    assert!(single.rotate_if_due(1));
    assert_eq!(*single.current_path(), 9);
    assert_eq!(single.next_rotation(), 2);
    single.commit_rotation(0, 10);
    assert_eq!(single.next_rotation(), 11);
    single.schedule_next_rotation(20);
    assert_eq!(single.next_rotation(), 21);
    let mut two =
        PathEpoch::with_rng(vec![0u8, 1u8], duration, RandomSource::seeded(5), 0).unwrap();
    for _ in 0..50 {
        let before = two.current_index();
        let next = two.next_index();
        assert_ne!(next, before);
        assert_eq!(two.current_index(), before);
    }
}

struct SharedTransport {
    sent: Rc<RefCell<Vec<Vec<u8>>>>,
    fail_after: Option<usize>,
    closed: Rc<RefCell<usize>>,
}

impl TransportAdapter for SharedTransport {
    fn send_bytes(&mut self, data: &[u8]) -> Result<(), TransportError> {
        if let Some(limit) = self.fail_after {
            if self.sent.borrow().len() >= limit {
                return Err(TransportError::WriteBlocked);
            }
        }
        self.sent.borrow_mut().push(data.to_vec());
        Ok(())
    }

    fn close_transport(&mut self) {
        *self.closed.borrow_mut() += 1;
    }

    fn start_reading<C: TransportCallbacks>(&mut self, _callbacks: &mut C) {}
}

struct SharedFactory {
    sent: Rc<RefCell<Vec<Vec<u8>>>>,
    opened: Rc<RefCell<Vec<char>>>,
    closed: Rc<RefCell<usize>>,
    fail_after: Option<usize>,
    refuse_from: Option<usize>,
}

impl EpochTransportFactory<char, SharedTransport> for SharedFactory {
    fn open_transport(&mut self, path: &char) -> Result<SharedTransport, TransportError> {
        if let Some(limit) = self.refuse_from {
            if self.opened.borrow().len() >= limit {
                return Err(TransportError::ConnectionLost);
            }
        }
        self.opened.borrow_mut().push(*path);
        Ok(SharedTransport {
            sent: self.sent.clone(),
            fail_after: self.fail_after,
            closed: self.closed.clone(),
        })
    }
}

type TestPump =
    AnonymityBindingPump<char, UniformDelay, UniformEpochDuration, SharedTransport, SharedFactory>;

fn make_pump(
    fail_after: Option<usize>,
    refuse_from: Option<usize>,
) -> (TestPump, Rc<RefCell<Vec<Vec<u8>>>>, Rc<RefCell<Vec<char>>>, Rc<RefCell<usize>>) {
    let sent = Rc::new(RefCell::new(Vec::new()));
    let opened = Rc::new(RefCell::new(Vec::new()));
    let closed = Rc::new(RefCell::new(0));
    let delay = DelayQueue::with_rng(
        UniformDelay::new(1_000_000, 5_000_000).unwrap(),
        RandomSource::seeded(1),
    );
    let epoch = PathEpoch::with_rng(
        vec!['A', 'B', 'C'],
        UniformEpochDuration::new(10_000_000, 20_000_000).unwrap(),
        RandomSource::seeded(2),
        0,
    )
    .unwrap();
    let factory = SharedFactory {
        sent: sent.clone(),
        opened: opened.clone(),
        closed: closed.clone(),
        fail_after,
        refuse_from,
    };
    (AnonymityBindingPump::new(delay, epoch, factory), sent, opened, closed)
}

#[test]
fn pump_delivers_every_frame_and_rotates_paths() {
    let (mut pump, sent, opened, closed) = make_pump(None, None);
    let mut engine = AnonymityProtocolEngine::with_rng(RandomSource::seeded(3));
    let mut obs = ObservabilityState::new(ObservabilityLevel::OBS_DEV);
    assert!(!pump.is_running());
    assert_eq!(
        pump.tick(0, &mut engine, &mut obs),
        TickReport { ready: 0, sent: 0, rotated: false, failure: None }
    );
    assert!(pump.start());
    assert!(pump.is_running());
    for i in 0..150u8 {
        engine.enqueue(vec![i]);
    }
    let mut rotations = 0;
    let mut now = 0u64;
    while now <= 100_000_000 {
        assert!(pump.can_tick_at(now));
        let report = pump.tick(now, &mut engine, &mut obs);
        assert_eq!(report.failure, None);
        assert_eq!(report.sent, report.ready);
        assert!(report.ready <= MAX_RELEASE_BATCH);
        if report.rotated {
            rotations += 1;
        }
        now += 1_000_000;
    }
    assert!(pump.is_running());
    let mut payloads: Vec<u8> = sent.borrow().iter().map(|f| f[6]).collect();
    assert!(sent.borrow().iter().all(|f| f[..6] == [0, 0, 0, 3, 2, 2]));
    assert_ne!(payloads, (0..150u8).collect::<Vec<_>>());
    payloads.sort();
    assert_eq!(payloads, (0..150u8).collect::<Vec<_>>());
    assert!(rotations >= 4);
    let paths = opened.borrow();
    assert_eq!(paths.len(), rotations + 1);
    assert!(paths.windows(2).all(|w| w[0] != w[1]));
    assert_eq!(*closed.borrow(), rotations);
    assert_eq!(snapshot(&obs).unwrap().error_class_counts, [0, 0, 0, 0]);
    pump.stop();
    assert!(!pump.is_running());
}

#[test]
fn pump_stops_on_a_failed_write_and_counts_it() {
    let (mut pump, sent, _opened, _closed) = make_pump(Some(2), None);
    let mut engine = AnonymityProtocolEngine::with_rng(RandomSource::seeded(3));
    let mut obs = ObservabilityState::new(ObservabilityLevel::OBS_DEV);
    assert!(pump.start());
    for i in 0..10u8 {
        engine.enqueue(vec![i]);
    }
    let first = pump.tick(0, &mut engine, &mut obs);
    assert_eq!(first.failure, None);
    let report = pump.tick(5_000_000, &mut engine, &mut obs);
    assert_eq!(report.ready, 10);
    assert_eq!(report.sent, 2);
    assert_eq!(report.failure, Some(PumpFailure::SendFailed(TransportError::WriteBlocked)));
    assert!(!pump.is_running());
    assert_eq!(sent.borrow().len(), 2);
    assert_eq!(snapshot(&obs).unwrap().error_class_counts, [0, 1, 0, 0]);
    let after = pump.release(6_000_000, &mut obs);
    assert_eq!(after, TickReport { ready: 0, sent: 0, rotated: false, failure: None });
    pump.refill(6_000_000, vec![vec![1]]);
}

#[test]
fn pump_flushes_and_stops_when_the_new_path_cannot_be_opened() {
    let (mut pump, sent, opened, _closed) = make_pump(None, Some(1));
    let mut engine = AnonymityProtocolEngine::with_rng(RandomSource::seeded(3));
    let mut obs = ObservabilityState::new(ObservabilityLevel::OBS_DEV);
    assert!(pump.start());
    for i in 0..5u8 {
        engine.enqueue(vec![i]);
    }
    assert_eq!(pump.tick(0, &mut engine, &mut obs).failure, None);
    let report = pump.tick(25_000_000, &mut engine, &mut obs);
    assert!(report.rotated);
    assert_eq!(report.failure, Some(PumpFailure::OpenFailed(TransportError::ConnectionLost)));
    assert_eq!(report.ready, 5);
    assert_eq!(report.sent, 5);
    assert_eq!(sent.borrow().len(), 5);
    assert_eq!(opened.borrow().len(), 1);
    assert!(!pump.is_running());
    assert_eq!(snapshot(&obs).unwrap().error_class_counts, [0, 0, 0, 0]);
    let (mut never, _s, _o, _c) = make_pump(None, Some(0));
    assert!(!never.start());
    assert!(!never.is_running());
}

#[test]
fn legacy_pump_forwards_queued_frames() {
    let mut engine = ProtocolEngine::new(RelayLimits {
        max_connections: 4,
        max_inflight_opens: 4,
        max_buffered_bytes: 1024,
    });
    let mut obs = ObservabilityState::new(ObservabilityLevel::OBS_DEV);
    assert!(engine.open_and_finalize(7));
    engine.queue_data_frame(7, &[1, 2]).unwrap();
    engine.queue_data_frame(7, &[3]).unwrap();
    let sent = Rc::new(RefCell::new(Vec::new()));
    let closed = Rc::new(RefCell::new(0));
    let mut pump: BindingPump<LegacyPhase, SharedTransport> = BindingPump::new();
    pump.add_transport(7, SharedTransport { sent: sent.clone(), fail_after: Some(1), closed });
    assert!(pump.has_transport(7));
    assert_eq!(pump.pump_connection(7, &mut engine, &mut obs), 0);
    assert_eq!(engine.next_outbound_frame(7).unwrap(), vec![0, 0, 0, 7, 1, 2, 0, 0, 0, 7, 3]);
    engine.queue_data_frame(7, &[4]).unwrap();
    pump.start();
    assert!(pump.is_running());
    assert_eq!(pump.pump_connection(9, &mut engine, &mut obs), 0);
    assert_eq!(pump.pump_connection(7, &mut engine, &mut obs), 1);
    assert!(!pump.has_transport(7));
    assert_eq!(sent.borrow().len(), 1);
    assert_eq!(engine.next_outbound_frame(7), None);
    assert_eq!(snapshot(&obs).unwrap().error_class_counts, [0, 1, 0, 0]);
    pump.stop();
    assert!(!pump.is_running());
}

struct Collector {
    bytes: Vec<u8>,
    errors: Vec<TransportError>,
}

impl TransportCallbacks for Collector {
    fn on_bytes_received(&mut self, data: &[u8]) {
        self.bytes.extend_from_slice(data);
    }

    fn on_transport_error(&mut self, error: TransportError) {
        self.errors.push(error);
    }
}

#[test]
fn fake_transport_keeps_what_is_sent_and_delivers_what_is_injected() {
    let mut fake = FakeTransportAdapter::new();
    assert_eq!(fake.send_bytes(&[1, 2]), Ok(()));
    assert_eq!(fake.send(&[3]), Ok(()));
    assert_eq!(fake.drain_outbound(), vec![1, 2, 3]);
    assert_eq!(fake.drain_outbound(), Vec::<u8>::new());
    fake.inject_bytes(&[7, 8]);
    fake.inject_bytes(&[9]);
    let mut collector = Collector { bytes: vec![], errors: vec![] };
    fake.start_reading(&mut collector);
    assert_eq!(collector.bytes, vec![7, 8, 9]);
    fake.deliver(&mut collector);
    assert_eq!(collector.bytes, vec![7, 8, 9]);
    fake.inject_bytes(&[1]);
    fake.close_transport();
    assert!(fake.is_closed());
    fake.deliver(&mut collector);
    assert_eq!(collector.bytes, vec![7, 8, 9]);
    assert_eq!(fake.send_bytes(&[4]), Err(TransportError::ConnectionLost));
    assert_eq!(fake.drain_outbound(), Vec::<u8>::new());
    collector.on_transport_error(TransportError::Timeout);
    assert_eq!(collector.errors, vec![TransportError::Timeout]);

    let mut open = FakeTransportAdapter::new();
    open.inject_bytes(&[5]);
    let mut handle = TransportHandle::new(open, Collector { bytes: vec![], errors: vec![] });
    assert_eq!(handle.send_bytes(&[1]), Ok(()));
    handle.start_reading();
    assert_eq!(handle.callbacks().bytes, vec![5]);
    handle.close();
    assert_eq!(handle.send_bytes(&[1]), Err(TransportError::ConnectionLost));
}

#[test]
fn a_seeded_rotator_follows_its_generator() {
    let seed = 0x5EED;
    let mut model = DeterministicRng::new(seed);
    let duration = UniformEpochDuration::new(1_000, 9_000).unwrap();
    let paths: Vec<u32> = (0..7).collect();
    let mut epoch = PathEpoch::with_rng(paths, duration, RandomSource::seeded(seed), 50).unwrap();
    let first = (model.next_u64() % 7) as usize;
    assert_eq!(epoch.current_index(), first);
    assert_eq!(epoch.next_rotation(), 50 + uniform_sample(1_000, 9_000, model.next_u64()));
    assert_eq!(epoch.epoch_nonce(), model.next_u64());
    let mut expected_rng = model;
    let next = epoch.next_index();
    assert_eq!(next, select_index(first, 7, expected_rng.next_u64()));
    let now = epoch.next_rotation();
    assert!(epoch.rotate_if_due(now));
    let picked = select_index(first, 7, expected_rng.next_u64());
    assert_eq!(epoch.current_index(), picked);
    assert_eq!(epoch.epoch_nonce(), expected_rng.next_u64());
    assert_eq!(epoch.next_rotation(), now + uniform_sample(1_000, 9_000, expected_rng.next_u64()));
    let mut delay = UniformDelay::new(5, 500).unwrap();
    let mut source = RandomSource::seeded(9);
    let mut shadow = DeterministicRng::new(9);
    for _ in 0..20 {
        assert_eq!(delay.sample_delay(&mut source), uniform_sample(5, 500, shadow.next_u64()));
    }
}

#[test]
fn seeded_pools_and_queues_behave_alike() {
    let mut a = MixingPool::with_rng(RandomSource::seeded(77));
    let mut b = MixingPool::with_rng(RandomSource::seeded(77));
    for round in 0..3u8 {
        for i in 0..40u8 {
            a.enqueue(vec![round, i]);
            b.enqueue(vec![round, i]);
        }
        for max in [7usize, 0, 50] {
            assert_eq!(a.drain_batch(max), b.drain_batch(max));
        }
    }
    let delay = UniformDelay::new(10, 1_000).unwrap();
    let mut p = DelayQueue::with_rng(delay, RandomSource::seeded(5));
    let mut q = DelayQueue::with_rng(delay, RandomSource::seeded(5));
    for i in 0..200u8 {
        p.enqueue_at(u64::from(i), vec![i]);
        q.enqueue_at(u64::from(i), vec![i]);
    }
    let mut seen = 0;
    for now in [100u64, 400, 401, 900, 1_300] {
        let left = p.drain_ready_at(now, 60);
        assert_eq!(left, q.drain_ready_at(now, 60));
        seen += left.len();
    }
    assert!(seen > 0);
    assert_eq!(p.pending_len(), q.pending_len());
    assert_eq!(p.ready_len(), q.ready_len());
}

struct TaggedTransport {
    path: char,
    log: Rc<RefCell<Vec<(char, Vec<u8>)>>>,
}

impl TransportAdapter for TaggedTransport {
    fn send_bytes(&mut self, data: &[u8]) -> Result<(), TransportError> {
        self.log.borrow_mut().push((self.path, data.to_vec()));
        Ok(())
    }

    fn close_transport(&mut self) {}

    fn start_reading<C: TransportCallbacks>(&mut self, _callbacks: &mut C) {}
}

struct TaggedFactory {
    log: Rc<RefCell<Vec<(char, Vec<u8>)>>>,
    asked: Rc<RefCell<Vec<char>>>,
}

impl EpochTransportFactory<char, TaggedTransport> for TaggedFactory {
    fn open_transport(&mut self, path: &char) -> Result<TaggedTransport, TransportError> {
        self.asked.borrow_mut().push(*path);
        Ok(TaggedTransport { path: *path, log: self.log.clone() })
    }
}

#[test]
fn pumps_open_the_current_path_and_write_on_its_transport() {
    let log = Rc::new(RefCell::new(Vec::new()));
    let asked = Rc::new(RefCell::new(Vec::new()));
    let delay = DelayQueue::with_rng(UniformDelay::new(1, 5).unwrap(), RandomSource::seeded(1));
    let epoch = PathEpoch::with_rng(
        vec!['A', 'B', 'C'],
        UniformEpochDuration::new(100, 200).unwrap(),
        RandomSource::seeded(2),
        0,
    )
    .unwrap();
    let first = *epoch.current_path();
    let factory = TaggedFactory { log: log.clone(), asked: asked.clone() };
    let mut pump = AnonymityBindingPump::new(delay, epoch, factory);
    let mut obs = ObservabilityState::new(ObservabilityLevel::OBS_DEV);
    assert!(pump.start());
    assert_eq!(*asked.borrow(), vec![first]);
    pump.refill(0, vec![vec![1], vec![2]]);
    let quiet = pump.release(50, &mut obs);
    assert_eq!(quiet, TickReport { ready: 2, sent: 2, rotated: false, failure: None });
    assert!(log.borrow().iter().all(|(path, _)| *path == first));
    pump.refill(50, vec![vec![3]]);
    let turned = pump.release(300, &mut obs);
    assert!(turned.rotated);
    assert_eq!((turned.ready, turned.sent, turned.failure), (1, 1, None));
    let second = asked.borrow()[1];
    assert_ne!(second, first);
    assert_eq!(asked.borrow().len(), 2);
    assert_eq!(log.borrow().last(), Some(&(second, vec![3])));

    let log9 = Rc::new(RefCell::new(Vec::new()));
    let asked9 = Rc::new(RefCell::new(Vec::new()));
    let delay9 = DelayQueue::with_rng(UniformDelay::new(1, 5).unwrap(), RandomSource::seeded(1));
    let epoch9 = PathEpoch::with_rng(
        vec!['A', 'B', 'C'],
        UniformEpochDuration::new(100, 200).unwrap(),
        RandomSource::seeded(2),
        0,
    )
    .unwrap();
    let first9 = *epoch9.current_path();
    let factory9 = TaggedFactory { log: log9.clone(), asked: asked9.clone() };
    let mut pump9 = Phase9BindingPump::new(delay9, epoch9, factory9);
    assert!(pump9.start());
    assert_eq!(*asked9.borrow(), vec![first9]);
    pump9.refill(0, vec![vec![7]]);
    let report = pump9.release(300);
    assert!(report.rotated);
    assert_eq!((report.ready, report.sent, report.failure), (1, 1, None));
    let second9 = asked9.borrow()[1];
    assert_ne!(second9, first9);
    assert_eq!(log9.borrow().last(), Some(&(second9, vec![7])));
}

#[test]
fn a_report_puts_a_failed_open_before_a_failed_write() {
    assert_eq!(
        tick_report(5, true, Some(TransportError::ConnectionLost), 2, Some(TransportError::Timeout)),
        TickReport {
            ready: 5,
            sent: 2,
            rotated: true,
            failure: Some(PumpFailure::OpenFailed(TransportError::ConnectionLost)),
        }
    );
    assert_eq!(
        tick_report(5, false, None, 2, Some(TransportError::Timeout)),
        TickReport {
            ready: 5,
            sent: 2,
            rotated: false,
            failure: Some(PumpFailure::SendFailed(TransportError::Timeout)),
        }
    );
    assert_eq!(
        tick_report(3, true, None, 3, None),
        TickReport { ready: 3, sent: 3, rotated: true, failure: None }
    );
}
