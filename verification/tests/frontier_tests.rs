use persistence::Frontier;

const A: u128 = 1;
const B: u128 = 2;
const C: u128 = 3;

#[test]
fn advance_accepts_dominating_rejects_stale() {
    let mut f = Frontier::new();
    assert_eq!(f.get(A), None);
    assert!(f.advance(A, 5));
    assert_eq!(f.get(A), Some(5));
    assert!(!f.advance(A, 3));
    assert_eq!(f.get(A), Some(5));
    assert!(f.advance(A, 7));
    assert_eq!(f.get(A), Some(7));
}

#[test]
fn advance_equal_token_is_rejected_noop() {
    let mut f = Frontier::new();
    assert!(f.advance(A, 5));
    assert!(!f.advance(A, 5));
    assert_eq!(f.get(A), Some(5));
}

#[test]
fn merge_takes_pointwise_join() {
    let mut f1 = Frontier::new();
    f1.advance(A, 5);
    f1.advance(B, 2);
    let mut f2 = Frontier::new();
    f2.advance(A, 3);
    f2.advance(B, 9);
    let m = f1.merge(&f2);
    assert_eq!(m.get(A), Some(5));
    assert_eq!(m.get(B), Some(9));
}

#[test]
fn merge_keeps_entries_present_in_only_one_input() {
    let mut f1 = Frontier::new();
    f1.advance(A, 4);
    let mut f2 = Frontier::new();
    f2.advance(C, 11);
    let m = f1.merge(&f2);
    assert_eq!(m.get(A), Some(4));
    assert_eq!(m.get(C), Some(11));
    assert_eq!(m.get(B), None);
}

#[test]
fn merge_is_commutative_and_idempotent_on_values() {
    let mut f1 = Frontier::new();
    f1.advance(A, 5);
    f1.advance(B, 2);
    let mut f2 = Frontier::new();
    f2.advance(A, 3);
    f2.advance(C, 1);
    let m12 = f1.merge(&f2);
    let m21 = f2.merge(&f1);
    for id in [A, B, C] {
        assert_eq!(m12.get(id), m21.get(id));
    }
    let mm = m12.merge(&m12);
    for id in [A, B, C] {
        assert_eq!(mm.get(id), m12.get(id));
    }
}

#[test]
fn interleavings_of_advances_agree() {
    let reports = [(A, 5u64), (A, 3), (B, 2), (A, 7), (B, 1)];
    let orders: [[usize; 5]; 4] = [
        [0, 1, 2, 3, 4],
        [4, 3, 2, 1, 0],
        [2, 0, 4, 1, 3],
        [3, 1, 0, 4, 2],
    ];
    for order in orders {
        let mut f = Frontier::new();
        for k in order {
            let (id, token) = reports[k];
            f.advance(id, token);
        }
        assert_eq!(f.get(A), Some(7));
        assert_eq!(f.get(B), Some(2));
    }
}

#[test]
fn snapshot_is_isolated_from_later_advances() {
    let mut f = Frontier::new();
    f.advance(A, 5);
    let snap = f.snapshot();
    f.advance(A, 9);
    f.advance(B, 1);
    assert_eq!(snap.get(A), Some(5));
    assert_eq!(snap.get(B), None);
    assert_eq!(f.get(A), Some(9));
}
