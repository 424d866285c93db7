use task_forest::aggregate::Aggregator;
use task_forest::evaluate::{do_derive, do_hash, do_random, evaluate};
use task_forest::scheduler::{run_eager, run_lazy};
use task_forest::task::{generate_lazy, Task, TaskType};

#[test]
fn forest_size_within_bounds() {
    for seed in 0..20u64 {
        let roots = Task::generate_initial_eager(seed, 3, 5);
        assert!(roots.len() <= 64);
        for t in &roots {
            assert_eq!(t.height, 3);
            assert_eq!(t.max_children, 5);
        }
    }
}

#[test]
fn children_sit_one_level_down() {
    let task = Task { typ: TaskType::Random, seed: 42, height: 3, max_children: 4 };
    let (_, children) = task.execute_eager();
    assert!(children.len() <= 4);
    for c in &children {
        assert_eq!(c.height, 2);
        assert_eq!(c.max_children, 4);
    }
}

#[test]
fn leaf_spawns_nothing() {
    let task = Task { typ: TaskType::Random, seed: 7, height: 0, max_children: 9 };
    let (_, children) = task.execute_eager();
    assert_eq!(children.len(), 0);
}

#[test]
fn zero_child_bound_spawns_nothing() {
    let task = Task { typ: TaskType::Random, seed: 7, height: 5, max_children: 0 };
    let (_, children) = task.execute_eager();
    assert_eq!(children.len(), 0);
}

#[test]
fn evaluator_is_deterministic() {
    assert_eq!(do_random(9), do_random(9));
    assert_eq!(do_hash(9), do_hash(9));
    assert_eq!(do_derive(9), do_derive(9));
}

#[test]
fn evaluate_dispatches_by_kind() {
    assert_eq!(evaluate(TaskType::Hash, 3), do_hash(3));
    assert_eq!(evaluate(TaskType::Derive, 3), do_derive(3));
    assert_eq!(evaluate(TaskType::Random, 3), do_random(3));
}

#[test]
fn aggregator_merges_by_xor_and_counts() {
    let mut agg = Aggregator::new();
    agg.contribute(0b1100, TaskType::Hash);
    agg.contribute(0b1010, TaskType::Derive);
    agg.contribute(0b1010, TaskType::Hash);
    assert_eq!(agg.acc, 0b1100);
    assert_eq!(agg.hash_count, 2);
    assert_eq!(agg.derive_count, 1);
    assert_eq!(agg.random_count, 0);
}

#[test]
fn merge_order_does_not_matter() {
    let outputs = vec![3u64, 17, 257, 88, 12345, 3];
    let mut forward = Aggregator::new();
    for o in &outputs {
        forward.contribute(*o, TaskType::Random);
    }
    let mut backward = Aggregator::new();
    for o in outputs.iter().rev() {
        backward.contribute(*o, TaskType::Random);
    }
    assert_eq!(forward.acc, backward.acc);
    assert_eq!(forward.random_count, backward.random_count);
}

#[test]
fn lazy_node_draws_and_decrements() {
    let mut node = generate_lazy(5, 4, 3);
    assert!(node.count <= 3);
    assert_eq!(node.height, 4);
    assert_eq!(node.max_children, 3);
    if node.count > 0 {
        let before = node.count;
        let t = node.generate_task();
        assert_eq!(node.count, before - 1);
        assert_eq!(t.height, 4);
        assert_eq!(t.max_children, 3);
    }
}

#[test]
fn lazy_execute_steps_down() {
    let task = Task { typ: TaskType::Random, seed: 11, height: 2, max_children: 3 };
    let (output, node) = task.execute();
    assert_eq!(output, do_random(11));
    assert_eq!(node.height, 1);
    assert_eq!(node.max_children, 3);
    assert!(node.count <= 3);

    let leaf = Task { typ: TaskType::Random, seed: 11, height: 0, max_children: 3 };
    let (_, spent) = leaf.execute();
    assert_eq!(spent.count, 0);
}

#[test]
fn scenario_b_height_zero_counts_forest() {
    let roots = Task::generate_initial_eager(3, 0, 7);
    let r = run_eager(3, 0, 7);
    let total = r.hash_count + r.derive_count + r.random_count;
    assert_eq!(total as usize, roots.len());
}

#[test]
fn scenario_a_zero_bound_counts_forest_and_repeats() {
    let roots = Task::generate_initial_eager(3, 4, 0);
    let first = run_eager(3, 4, 0);
    let second = run_eager(3, 4, 0);
    let total = first.hash_count + first.derive_count + first.random_count;
    assert_eq!(total as usize, roots.len());
    assert_eq!(first.acc, second.acc);
    assert_eq!(first.hash_count, second.hash_count);
    assert_eq!(first.derive_count, second.derive_count);
    assert_eq!(first.random_count, second.random_count);
}

#[test]
fn repeated_runs_agree() {
    let first = run_eager(3, 1, 1);
    let second = run_eager(3, 1, 1);
    assert_eq!(first.acc, second.acc);
    assert_eq!(first.hash_count, second.hash_count);
    assert_eq!(first.derive_count, second.derive_count);
    assert_eq!(first.random_count, second.random_count);
}

#[test]
fn evaluator_golden_values() {
    assert_eq!(do_hash(0), 2513512116876698808);
    assert_eq!(do_derive(0), 4698275925039111222);
    assert_eq!(do_random(0), 2274054540596386641);
}

#[test]
fn scenario_c_golden_one_one() {
    let r = run_eager(0, 1, 1);
    assert_eq!(r.acc, 12479188083982651889);
    assert_eq!(r.hash_count, 6);
    assert_eq!(r.derive_count, 7);
    assert_eq!(r.random_count, 3);
}

#[test]
fn scenario_c_golden_two_two() {
    let r = run_eager(0, 2, 2);
    assert_eq!(r.acc, 4230692801002714409);
    assert_eq!(r.hash_count, 8);
    assert_eq!(r.derive_count, 17);
    assert_eq!(r.random_count, 6);
}

#[test]
fn lazy_counts_are_reproducible() {
    let first = generate_lazy(9, 4, 6);
    let second = generate_lazy(9, 4, 6);
    assert_eq!(first.count, second.count);

    let task = Task { typ: TaskType::Random, seed: 21, height: 3, max_children: 5 };
    let (_, node_a) = task.execute();
    let (_, node_b) = task.execute();
    assert_eq!(node_a.count, node_b.count);
}

#[test]
fn lazy_flat_counts_match_forest() {
    let roots = Task::generate_initial_eager(3, 0, 5);
    let flat_height = run_lazy(3, 0, 5);
    assert_eq!(
        (flat_height.hash_count + flat_height.derive_count + flat_height.random_count) as usize,
        roots.len()
    );
    let flat_bound = run_lazy(3, 4, 0);
    assert_eq!(
        (flat_bound.hash_count + flat_bound.derive_count + flat_bound.random_count) as usize,
        roots.len()
    );
}

#[test]
fn lazy_flat_run_matches_eager() {
    let lazy = run_lazy(3, 0, 3);
    let eager = run_eager(3, 0, 3);
    assert_eq!(lazy.acc, eager.acc);
    assert_eq!(lazy.hash_count, eager.hash_count);
    assert_eq!(lazy.derive_count, eager.derive_count);
    assert_eq!(lazy.random_count, eager.random_count);
}
