use hnqai::select::{CandidatePool, Standing};

fn pool_of(standings: &[Standing]) -> CandidatePool {
    let mut p = CandidatePool::new();
    for (i, s) in standings.iter().enumerate() {
        p.step(i, *s);
    }
    p
}

#[test]
fn empty_pool_picks_nothing() {
    assert_eq!(CandidatePool::new().pick(), None);
}

#[test]
fn unvalued_moves_are_drawn_uniformly() {
    let p = pool_of(&[Standing::Unvalued; 4]);
    assert_eq!(p.members, vec![0, 1, 2, 3]);
    assert_eq!(p.leader, None);
    let mut counts = [0usize; 4];
    let draws = 40000;
    for _ in 0..draws {
        counts[p.pick().unwrap()] += 1;
    }
    for c in counts {
        let freq = c as f64 / draws as f64;
        assert!((freq - 0.25).abs() < 0.03, "frequency {}", freq);
    }
}

#[test]
fn clear_best_is_always_chosen() {
    let p = pool_of(&[
        Standing::Unvalued,
        Standing::Below,
        Standing::Above,
        Standing::Below,
        Standing::Unvalued,
    ]);
    assert_eq!(p.members, vec![2]);
    assert_eq!(p.leader, Some(2));
    for _ in 0..200 {
        assert_eq!(p.pick(), Some(2));
    }
}

#[test]
fn near_ties_share_the_draw() {
    let p = pool_of(&[
        Standing::Below,
        Standing::Near,
        Standing::Below,
        Standing::Near,
        Standing::Unvalued,
    ]);
    assert_eq!(p.members, vec![0, 1, 3]);
    assert_eq!(p.leader, Some(0));
    let mut seen = [false; 5];
    for _ in 0..2000 {
        seen[p.pick().unwrap()] = true;
    }
    assert_eq!(seen, [true, true, false, true, false]);
}

#[test]
fn a_better_move_resets_the_pool() {
    let p = pool_of(&[Standing::Unvalued, Standing::Unvalued, Standing::Below, Standing::Near, Standing::Above]);
    assert_eq!(p.members, vec![4]);
    assert_eq!(p.leader, Some(4));
}

#[test]
fn first_valued_move_leads_over_unvalued_ones() {
    let p = pool_of(&[Standing::Unvalued, Standing::Near, Standing::Unvalued]);
    assert_eq!(p.members, vec![1]);
    assert_eq!(p.leader, Some(1));
}
