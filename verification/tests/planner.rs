use chat_ingest::planner::{
    count_shards, normalize_channel, normalize_channels, plan, prefix_hash, startup_delay,
    MAX_PER_SHARD, STAGGER_SECS,
};

fn names(n: usize) -> Vec<String> {
    (0..n).map(|i| format!("#channel{}", i)).collect()
}

fn sizes(n: usize, max: usize) -> Vec<usize> {
    plan(&names(n), max).iter().map(|p| p.channels.len()).collect()
}

#[test]
fn channels_120_make_three_shards_of_40() {
    assert_eq!(MAX_PER_SHARD, 50);
    let plans = plan(&names(120), MAX_PER_SHARD);
    assert_eq!(plans.len(), 3);
    assert_eq!(sizes(120, 50), vec![40, 40, 40]);
    let total: usize = plans.iter().map(|p| p.channels.len()).sum();
    assert_eq!(total, 120);
}

#[test]
fn channels_10_make_one_shard() {
    let plans = plan(&names(10), MAX_PER_SHARD);
    assert_eq!(plans.len(), 1);
    assert_eq!(plans[0].shard_index, 0);
    assert_eq!(plans[0].channels, names(10));
}

#[test]
fn no_channels_make_one_empty_shard() {
    let plans = plan(&Vec::new(), MAX_PER_SHARD);
    assert_eq!(plans.len(), 1);
    assert!(plans[0].channels.is_empty());
    assert_eq!(plans[0].shard_index, 0);
}

#[test]
fn shard_sizes_at_the_boundaries() {
    assert_eq!(sizes(49, 50), vec![49]);
    assert_eq!(sizes(50, 50), vec![50]);
    assert_eq!(sizes(51, 50), vec![26, 25]);
    assert_eq!(sizes(100, 50), vec![50, 50]);
    assert_eq!(sizes(101, 50), vec![34, 34, 33]);
    assert_eq!(sizes(104, 50), vec![35, 35, 34]);
    assert_eq!(sizes(7, 2), vec![2, 2, 2, 1]);
    assert_eq!(sizes(5, 1), vec![1, 1, 1, 1, 1]);
    assert_eq!(sizes(1, 1), vec![1]);
}

#[test]
fn count_shards_rounds_up() {
    assert_eq!(count_shards(0, 50), 1);
    assert_eq!(count_shards(49, 50), 1);
    assert_eq!(count_shards(50, 50), 1);
    assert_eq!(count_shards(51, 50), 2);
    assert_eq!(count_shards(100, 50), 2);
    assert_eq!(count_shards(101, 50), 3);
    assert_eq!(count_shards(120, 50), 3);
    assert_eq!(count_shards(usize::MAX, 1), usize::MAX);
}

#[test]
fn shards_are_contiguous_and_in_order() {
    for (n, max) in [(120usize, 50usize), (101, 50), (7, 2), (13, 3), (1, 1), (0, 4), (64, 8)] {
        let channels = names(n);
        let plans = plan(&channels, max);
        let mut joined: Vec<String> = Vec::new();
        for (i, p) in plans.iter().enumerate() {
            assert_eq!(p.shard_index, i);
            assert!(p.channels.len() <= max);
            if n > 0 {
                assert!(!p.channels.is_empty());
            }
            if i + 1 < plans.len() {
                assert_eq!(p.channels.len(), plans[0].channels.len());
            }
            joined.extend(p.channels.iter().cloned());
        }
        assert_eq!(joined, channels, "{} channels, at most {} per shard", n, max);
    }
}

#[test]
fn only_the_last_shard_starts_without_delay() {
    assert_eq!(STAGGER_SECS, 30);
    assert_eq!(startup_delay(0, 3), 30);
    assert_eq!(startup_delay(1, 3), 30);
    assert_eq!(startup_delay(2, 3), 0);
    assert_eq!(startup_delay(0, 1), 0);
    assert_eq!(startup_delay(0, 0), 0);
    assert_eq!(startup_delay(usize::MAX, usize::MAX), 0);
}

#[test]
fn channel_names_become_lower_case_with_hash() {
    assert_eq!(normalize_channel("Bob"), "#bob");
    assert_eq!(normalize_channel("#Bob"), "#bob");
    assert_eq!(normalize_channel("#bob"), "#bob");
    assert_eq!(normalize_channel(""), "#");
    assert_eq!(normalize_channel("##x"), "##x");
    assert_eq!(normalize_channel("\u{c9}COLE"), "#\u{e9}cole");
    assert_eq!(prefix_hash("already".to_string()), "#already");
    assert_eq!(prefix_hash("#already".to_string()), "#already");
}

#[test]
fn channel_lists_are_normalised_in_order() {
    let given = vec!["Alpha".to_string(), "#BETA".to_string(), "gamma".to_string()];
    let expected = vec!["#alpha".to_string(), "#beta".to_string(), "#gamma".to_string()];
    assert_eq!(normalize_channels(&given), expected);
    assert!(normalize_channels(&Vec::new()).is_empty());
}
