use schoology_export::users::UserSet;

#[test]
fn first_claim_wins_repeats_lose() {
    let mut users = UserSet::new();
    assert!(users.claim(7));
    assert!(!users.claim(7));
    assert!(!users.claim(7));
    assert!(users.contains(7));
    assert!(!users.contains(8));
}

#[test]
fn interleaved_claims_export_each_id_once() {
    // a run of claims with id 7 interleaved among others: 7 is exported
    // exactly once, whatever stood between
    let calls: Vec<i64> = vec![7, 3, 7, 9, 3, 7];
    let mut users = UserSet::new();
    let mut exports_of_7 = 0;
    for id in calls {
        if users.claim(id) && id == 7 {
            exports_of_7 += 1;
        }
    }
    assert_eq!(exports_of_7, 1);
}

#[test]
fn final_membership_is_order_independent() {
    let a: Vec<i64> = vec![1, 2, 2, 3, 1];
    let b: Vec<i64> = vec![3, 1, 2];
    let mut ua = UserSet::new();
    for id in a {
        ua.claim(id);
    }
    let mut ub = UserSet::new();
    for id in b {
        ub.claim(id);
    }
    for id in [1i64, 2, 3, 4, 0, -1] {
        assert_eq!(ua.contains(id), ub.contains(id));
        assert_eq!(ua.contains(id), (1..=3).contains(&id));
    }
}
