use math_it::generator::{generate_puzzle, level_operators, operator_count, pool_count};
use math_it::{Operation, Rational};

#[test]
fn generate_twice_identical() {
    for seed in [0u64, 1, 42, 0xDEAD_BEEF, u64::MAX] {
        for level in [0u64, 1, 5, 19, 20, 100, u64::MAX] {
            let a = generate_puzzle(seed, level);
            let b = generate_puzzle(seed, level);
            assert_eq!(a.pool, b.pool);
            assert_eq!(a.operators, b.operators);
            assert_eq!(a.target, b.target);
        }
    }
}

#[test]
fn generator_terminates_over_many_seeds_and_levels() {
    for seed in 0u64..1000 {
        for level in 0u64..100 {
            let p = generate_puzzle(seed, level);
            assert!(p.pool.len() >= 2 && p.pool.len() <= 10);
            for v in &p.pool {
                assert_eq!(v.d, 1);
                assert!(v.n >= 1 && v.n <= 10);
            }
            assert!(!p.operators.is_empty() && p.operators.len() <= 4);
            assert!(p.target.d >= 1);
        }
    }
}

#[test]
fn pool_size_scales_with_level() {
    assert_eq!(pool_count(0), 2);
    assert_eq!(pool_count(1), 3);
    assert_eq!(pool_count(19), 10);
    assert_eq!(pool_count(20), 10);
    assert_eq!(pool_count(u64::MAX), 10);
    let mut previous = pool_count(0);
    for level in 1u64..=19 {
        let current = pool_count(level);
        assert!(current >= previous);
        previous = current;
    }
    assert_eq!(previous, 10);
}

#[test]
fn operator_count_scales_with_level() {
    assert_eq!(operator_count(0), 2);
    assert_eq!(operator_count(5), 4);
    assert_eq!(operator_count(6), 4);
    assert_eq!(operator_count(u64::MAX), 4);
    let mut previous = operator_count(0);
    for level in 1u64..=6 {
        let current = operator_count(level);
        assert!(current >= previous);
        previous = current;
    }
    assert_eq!(previous, 4);
}

#[test]
fn operators_are_canonical_prefix() {
    assert_eq!(level_operators(0), vec![Operation::Add, Operation::Subtract]);
    assert_eq!(
        level_operators(2),
        vec![Operation::Add, Operation::Subtract, Operation::Multiply]
    );
    assert_eq!(
        level_operators(6),
        vec![
            Operation::Add,
            Operation::Subtract,
            Operation::Multiply,
            Operation::Divide
        ]
    );
}

#[test]
fn generated_pool_values_are_small_integers() {
    let p = generate_puzzle(7, 3);
    assert_eq!(p.pool.len(), pool_count(3));
    for v in &p.pool {
        assert_eq!(v.d, 1);
        assert!(v.n >= 1 && v.n <= 10);
    }
}

#[test]
fn different_seeds_vary_pools() {
    // Not a contract, but a sanity check that the generator reacts to its
    // seed at all: across many seeds at one level, at least two pools differ.
    let first = generate_puzzle(0, 10).pool;
    let mut saw_different = false;
    for seed in 1u64..50 {
        if generate_puzzle(seed, 10).pool != first {
            saw_different = true;
        }
    }
    assert!(saw_different);
}

#[test]
fn target_reachable_by_exhaustive_search_on_small_pools() {
    // Cross-checks the proved reachability claim on concrete small puzzles:
    // enumerate every merge sequence and find the target.
    for seed in 0u64..40 {
        let p = generate_puzzle(seed, 0);
        assert_eq!(p.pool.len(), 2);
        assert!(search(&p.pool, &p.operators, p.target));
    }
    for seed in 0u64..10 {
        let p = generate_puzzle(seed, 5);
        assert!(search(&p.pool, &p.operators, p.target));
    }
}

fn search(pool: &[Rational], ops: &[Operation], target: Rational) -> bool {
    if pool.len() == 1 {
        return (pool[0].n as i128) * (target.d as i128) == (target.n as i128) * (pool[0].d as i128);
    }
    for i in 0..pool.len() {
        for j in 0..pool.len() {
            if i == j {
                continue;
            }
            for op in ops {
                if let Ok(v) = op.apply(pool[i], pool[j]) {
                    let mut next: Vec<Rational> = pool.to_vec();
                    next[i] = v;
                    next.remove(j);
                    if search(&next, ops, target) {
                        return true;
                    }
                }
            }
        }
    }
    false
}
