use jsongen::engine::emit_json;
use jsongen::model::Limits;
use jsongen::pipeline::{fingerprint, same_bytes, Aggregator, Plan, Worker};
use jsongen::rng::Rng;

#[test]
fn aggregator_needs_a_positive_target() {
    assert!(Aggregator::new(0).is_none());
    let a = Aggregator::new(3).unwrap();
    assert_eq!(a.target(), 3);
    assert_eq!(a.len(), 0);
    assert!(!a.is_done());
}

#[test]
fn same_case_twice_leaves_the_size_unchanged() {
    let mut a = Aggregator::new(10).unwrap();
    assert!(!a.accept(b"[1]".to_vec()));
    assert_eq!(a.len(), 1);
    assert!(!a.accept(b"[1]".to_vec()));
    assert_eq!(a.len(), 1);
    assert!(!a.accept(b"[2]".to_vec()));
    assert_eq!(a.len(), 2);
    assert!(!a.accept(b"[1]".to_vec()));
    assert_eq!(a.len(), 2);
}

#[test]
fn aggregator_says_stop_when_the_target_is_reached() {
    let mut a = Aggregator::new(2).unwrap();
    assert!(!a.accept(b"a".to_vec()));
    assert!(!a.accept(b"a".to_vec()));
    assert!(a.accept(b"b".to_vec()));
    assert!(a.is_done());
    assert_eq!(a.len(), 2);
}

#[test]
fn aggregator_takes_nothing_after_the_target() {
    let mut a = Aggregator::new(1).unwrap();
    assert!(a.accept(b"a".to_vec()));
    assert!(a.accept(b"b".to_vec()));
    assert_eq!(a.len(), 1);
    assert!(a.contains(&b"a".to_vec()));
    assert!(!a.contains(&b"b".to_vec()));
    assert_eq!(a.into_cases(), vec![b"a".to_vec()]);
}

#[test]
fn aggregator_keeps_the_order_of_first_arrival() {
    let mut a = Aggregator::new(5).unwrap();
    for case in ["x", "y", "x", "", "y", "z"] {
        a.accept(case.as_bytes().to_vec());
    }
    assert_eq!(a.len(), 4);
    assert_eq!(a.get(0), &b"x".to_vec());
    assert_eq!(a.get(1), &b"y".to_vec());
    assert_eq!(a.get(2), &b"".to_vec());
    assert_eq!(a.get(3), &b"z".to_vec());
    assert_eq!(a.into_cases(), vec![b"x".to_vec(), b"y".to_vec(), b"".to_vec(), b"z".to_vec()]);
}

#[test]
fn aggregator_tells_a_prefix_from_the_whole() {
    let mut a = Aggregator::new(5).unwrap();
    a.accept(b"[1,2]".to_vec());
    assert!(!a.contains(&b"[1,2".to_vec()));
    assert!(!a.contains(&b"[1,2]]".to_vec()));
    assert!(!a.contains(&b"[1,3]".to_vec()));
    assert!(a.contains(&b"[1,2]".to_vec()));
}

#[test]
fn same_bytes_compares_contents() {
    assert!(same_bytes(&vec![], &vec![]));
    assert!(same_bytes(&vec![1, 2, 3], &vec![1, 2, 3]));
    assert!(!same_bytes(&vec![1, 2, 3], &vec![1, 2]));
    assert!(!same_bytes(&vec![1, 2, 3], &vec![1, 2, 4]));
    assert!(!same_bytes(&vec![0, 2, 3], &vec![1, 2, 3]));
}

#[test]
fn worker_generates_a_whole_text_from_depth_zero() {
    let mut worker = Worker::new(17, Limits::standard());
    let mut rng = Rng::new(17);
    for _ in 0..10 {
        let case = worker.produce();
        let (mut depth, mut buf) = (0, Vec::new());
        emit_json(&mut rng, Limits::standard(), &mut depth, &mut buf);
        assert_eq!(case, buf);
    }
}

#[test]
fn worker_keeps_its_limits() {
    let small = Limits::new(3, 2).unwrap();
    let mut worker = Worker::new(1, small);
    worker.produce();
    assert_eq!(worker.limits.max_depth, 3);
    assert_eq!(worker.limits.max_repeat, 2);
}

#[test]
fn worker_goes_on_unless_told_to_stop() {
    assert!(Worker::goes_on(true, false));
    assert!(!Worker::goes_on(true, true));
    assert!(!Worker::goes_on(false, false));
    assert!(!Worker::goes_on(false, true));
}

#[test]
fn one_worker_fills_a_corpus_of_five() {
    let mut worker = Worker::new(12345, Limits::standard());
    let mut corpus = Aggregator::new(5).unwrap();
    let mut stop = false;
    let mut sent = 0;
    while Worker::goes_on(true, stop) {
        stop = corpus.accept(worker.produce());
        sent += 1;
        assert!(sent < 10_000);
    }
    assert!(corpus.is_done());
    let cases = corpus.into_cases();
    assert_eq!(cases.len(), 5);
    for i in 0..cases.len() {
        for j in 0..i {
            assert_ne!(cases[i], cases[j]);
        }
    }
}

#[test]
fn two_runs_of_one_worker_give_the_same_corpus() {
    let run = |seed: u64| {
        let mut worker = Worker::new(seed, Limits::standard());
        let mut corpus = Aggregator::new(8).unwrap();
        while !corpus.accept(worker.produce()) {}
        corpus.into_cases()
    };
    assert_eq!(run(9), run(9));
    assert_ne!(run(9), run(10));
}

#[test]
fn fingerprints_of_known_texts() {
    assert_eq!(fingerprint(&b"".to_vec()), 0xcbf29ce484222325);
    assert_eq!(fingerprint(&b"a".to_vec()), 0xaf63dc4c8601ec8c);
    assert_eq!(fingerprint(&b"foobar".to_vec()), 0x85944171f73967e8);
}

#[test]
fn aggregator_finds_cases_among_many() {
    let mut a = Aggregator::new(2000).unwrap();
    for i in 0..1000u32 {
        assert!(!a.accept(i.to_string().into_bytes()));
    }
    assert_eq!(a.len(), 1000);
    for i in 0..1000u32 {
        assert!(a.contains(&i.to_string().into_bytes()));
        assert!(!a.accept(i.to_string().into_bytes()));
    }
    assert_eq!(a.len(), 1000);
    assert!(!a.contains(&b"1000".to_vec()));
    for i in 0..1000usize {
        assert_eq!(a.get(i), &i.to_string().into_bytes());
    }
}

#[test]
fn plan_needs_workers_and_a_target() {
    assert!(Plan::new(0, 5).is_none());
    assert!(Plan::new(1, 0).is_none());
    assert!(Plan::new(0, 0).is_none());
    let plan = Plan::new(1, 5).unwrap();
    assert_eq!((plan.workers, plan.target), (1, 5));
}

#[test]
fn fill_runs_one_worker_to_the_target() {
    let plan = Plan::new(1, 5).unwrap();
    let mut worker = Worker::new(2718, jsongen::model::Limits::standard());
    let mut corpus = Aggregator::new(plan.target).unwrap();
    assert!(corpus.fill(&mut worker, 10_000));
    let cases = corpus.into_cases();
    assert_eq!(cases.len(), 5);
    for i in 0..cases.len() {
        for j in 0..i {
            assert_ne!(cases[i], cases[j]);
        }
    }
}

#[test]
fn fill_is_the_loop_of_produce_and_accept() {
    let limits = jsongen::model::Limits::standard();
    let (mut w1, mut w2) = (Worker::new(5, limits), Worker::new(5, limits));
    let mut by_fill = Aggregator::new(6).unwrap();
    let mut by_hand = Aggregator::new(6).unwrap();
    by_fill.fill(&mut w1, 1000);
    while !by_hand.accept(w2.produce()) {}
    assert_eq!(by_fill.into_cases(), by_hand.into_cases());
    assert_eq!(w1.produce(), w2.produce());
}

#[test]
fn fill_stops_when_the_budget_is_spent() {
    let mut worker = Worker::new(1, jsongen::model::Limits::standard());
    let mut corpus = Aggregator::new(1000).unwrap();
    assert!(!corpus.fill(&mut worker, 3));
    assert!(corpus.len() <= 3);
    assert!(corpus.len() >= 1);
    assert!(!corpus.fill(&mut worker, 0));
}

#[test]
fn fill_from_a_source_that_repeats_never_reaches_two() {
    // the generator seeded with zero draws zero forever: every case is ""
    let mut worker = Worker::new(0, jsongen::model::Limits::standard());
    let mut corpus = Aggregator::new(2).unwrap();
    assert!(!corpus.fill(&mut worker, 500));
    assert_eq!(corpus.into_cases(), vec![b"\"\"".to_vec()]);
}
