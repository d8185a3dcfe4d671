use dytallix_fast_node::ordinary_admission::OrdinaryAdmissionQueue;

const HEAD: &str = "00112233445566778899aabbccddeeff00112233445566778899aabbccddeeff";

#[test]
fn reset_binds_only_a_committed_lowercase_head() {
    let mut queue: OrdinaryAdmissionQueue<Vec<u64>> = OrdinaryAdmissionQueue { bound: None };
    assert!(!queue.is_bound());
    let upper = HEAD.to_uppercase();
    let longer = format!("{HEAD}0");
    let wrong = HEAD.replace('f', "g");
    for bad in ["", "00", upper.as_str(), longer.as_str(), wrong.as_str()] {
        assert_eq!(
            queue.reset(bad, 1, Ok(([1; 32], vec![]))),
            Err("Admission queue requires a committed lowercase 32-byte app hash")
        );
        assert!(!queue.is_bound());
    }
    assert_eq!(queue.reset(HEAD, 2, Ok(([1; 32], vec![]))), Err("Unsupported ordinary queue configuration"));
    assert_eq!(queue.reset(HEAD, 1, Err("Ordinary queue limits are invalid")), Err("Ordinary queue limits are invalid"));
    assert!(!queue.is_bound());
    assert_eq!(queue.reset(HEAD, 1, Ok(([1; 32], vec![7]))), Ok(()));
    assert!(queue.is_bound());
}

#[test]
fn unchanged_context_keeps_the_ledger_and_a_failed_reset_keeps_the_queue() {
    let mut queue: OrdinaryAdmissionQueue<Vec<u64>> = OrdinaryAdmissionQueue { bound: None };
    queue.reset(HEAD, 1, Ok(([1; 32], vec![7]))).unwrap();
    queue.reset(HEAD, 1, Ok(([1; 32], vec![]))).unwrap();
    assert_eq!(queue.bound.as_ref().unwrap().1, vec![7]);
    assert!(queue.reset("bad", 1, Ok(([2; 32], vec![]))).is_err());
    assert_eq!(queue.bound.as_ref().unwrap().1, vec![7]);
    queue.reset(HEAD, 1, Ok(([2; 32], vec![8]))).unwrap();
    assert_eq!(queue.bound.as_ref().unwrap().1, vec![8]);
    assert_eq!(queue.bound.as_ref().unwrap().0.config_digest, [2; 32]);
}

#[test]
fn changed_head_or_configuration_installs_the_fresh_ledger() {
    let other = HEAD.replace('0', "b");
    let mut queue: OrdinaryAdmissionQueue<Vec<u64>> = OrdinaryAdmissionQueue { bound: None };
    queue.reset(HEAD, 1, Ok(([1; 32], vec![7, 9]))).unwrap();
    queue.reset(&other, 1, Ok(([1; 32], vec![]))).unwrap();
    let (binding, ledger) = queue.bound.as_ref().unwrap();
    assert_eq!(binding.head, other);
    assert!(ledger.is_empty());
    queue.bound.as_mut().unwrap().1.push(3);
    queue.reset(&other, 1, Ok(([4; 32], vec![]))).unwrap();
    assert_eq!(queue.bound.as_ref().unwrap().0.config_digest, [4; 32]);
    assert!(queue.bound.as_ref().unwrap().1.is_empty());
}

#[test]
fn every_refused_reset_keeps_head_digest_and_reservations() {
    let mut queue: OrdinaryAdmissionQueue<Vec<u64>> = OrdinaryAdmissionQueue { bound: None };
    queue.reset(HEAD, 1, Ok(([1; 32], vec![5]))).unwrap();
    let other = HEAD.replace('0', "b");
    let upper = HEAD.to_uppercase();
    for bad in ["", "not-a-head", upper.as_str()] {
        assert!(queue.reset(bad, 1, Ok(([2; 32], vec![]))).is_err());
    }
    assert!(queue.reset(&other, 2, Ok(([2; 32], vec![]))).is_err());
    assert!(queue.reset(&other, 1, Err("Ordinary queue limits are invalid")).is_err());
    let (binding, ledger) = queue.bound.as_ref().unwrap();
    assert_eq!(binding.head, HEAD);
    assert_eq!(binding.config_digest, [1; 32]);
    assert_eq!(ledger, &vec![5]);
}

#[test]
fn ledger_is_reachable_only_under_a_committed_context() {
    let mut queue: OrdinaryAdmissionQueue<Vec<u64>> = OrdinaryAdmissionQueue { bound: None };
    assert_eq!(queue.ledger_mut().err(), Some("Admission queue has no committed context"));
    queue.reset(HEAD, 1, Ok(([1; 32], vec![]))).unwrap();
    queue.ledger_mut().unwrap().push(4);
    assert_eq!(queue.bound.as_ref().unwrap().1, vec![4]);
    assert_eq!(queue.bound.as_ref().unwrap().0.config_digest, [1; 32]);
}
