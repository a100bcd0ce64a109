use edge_approximate::edge::csv_producer::{files_of_messages, out_headers};
use edge_approximate::edge::routing::{assigned_topic, neighborhood_topics};
use edge_approximate::edge::sampling::{select_sample, stratify};
use edge_approximate::edge::strategies::SendStrategy;

fn strings(v: &[&str]) -> Vec<String> {
    v.iter().map(|s| s.to_string()).collect()
}

#[test]
fn round_robin_cycles_through_partitions() {
    let neighborhoods: Vec<Option<String>> = vec![None; 7];
    let routes = SendStrategy::RoundRobin.plan_sends(&neighborhoods, &strings(&["t", "u"]), 3, &vec![]);
    let parts: Vec<Option<i32>> = routes.iter().map(|r| r.as_ref().unwrap().partition).collect();
    assert_eq!(
        parts,
        vec![Some(0), Some(1), Some(2), Some(0), Some(1), Some(2), Some(0)]
    );
    assert!(routes.iter().all(|r| r.as_ref().unwrap().topic == "t"));
}

#[test]
fn random_partitions_stay_in_range() {
    let neighborhoods: Vec<Option<String>> = vec![None; 200];
    let routes = SendStrategy::Random.plan_sends(&neighborhoods, &strings(&["t"]), 4, &vec![]);
    assert_eq!(routes.len(), 200);
    assert!(routes
        .iter()
        .all(|r| matches!(r, Some(r) if r.topic == "t" && matches!(r.partition, Some(p) if (0..4).contains(&p)))));
}

#[test]
fn neighborhood_wise_uses_assigned_topics() {
    let pairs = neighborhood_topics(&strings(&["A", "B", "C"]), &strings(&["t_0", "t_1", "t_e"]));
    assert_eq!(pairs.len(), 3);
    assert_eq!(assigned_topic(&pairs, &"B".to_string()), Some(&"t_1".to_string()));
    assert_eq!(assigned_topic(&pairs, &"Z".to_string()), None);
    let pairs = neighborhood_topics(&strings(&["A", "B"]), &strings(&["t_0", "t_1", "t_e"]));
    let neighborhoods = vec![Some("B".to_string()), None, Some("A".to_string())];
    let routes = SendStrategy::NeighborhoodWise.plan_sends(
        &neighborhoods,
        &strings(&["t_0", "t_1", "t_e"]),
        0,
        &pairs,
    );
    let topics: Vec<Option<&str>> = routes.iter().map(|r| r.as_ref().map(|r| r.topic.as_str())).collect();
    assert_eq!(topics, vec![Some("t_1"), None, Some("t_0")]);
    assert!(routes.iter().flatten().all(|r| r.partition.is_none()));
}

#[test]
fn strata_group_equal_geohashes() {
    let keys = strings(&["a", "b", "a", "c", "b", "a"]);
    let groups = stratify(&keys);
    assert_eq!(groups, vec![vec![0, 2, 5], vec![1, 4], vec![3]]);
    assert_eq!(stratify(&vec![]), Vec::<Vec<usize>>::new());
}

#[test]
fn samples_have_the_asked_sizes() {
    let keys = strings(&["a", "b", "a", "c", "b", "a"]);
    let groups = stratify(&keys);
    let sample = select_sample(&groups, &vec![2, 5, 0]);
    assert_eq!(sample.len(), 4);
    assert!(sample[..2].iter().all(|i| groups[0].contains(i)));
    assert_ne!(sample[0], sample[1]);
    assert_eq!(&sample[2..], &[1, 4]);
    let all = select_sample(&groups, &vec![3, 2, 1]);
    assert_eq!(all, vec![0, 2, 5, 1, 4, 3]);
}

#[test]
fn stratified_sample_of_equal_messages() {
    // one stratum of 10000 equal geohashes, 40% of it kept
    let keys: Vec<String> = vec!["wecnv5".to_string(); 10000];
    let groups = stratify(&keys);
    assert_eq!(groups.len(), 1);
    let sample = select_sample(&groups, &vec![4000]);
    assert_eq!(sample.len(), 4000);
    let mut sorted = sample.clone();
    sorted.sort();
    sorted.dedup();
    assert_eq!(sorted.len(), 4000);
}

#[test]
fn csv_files_per_neighborhood() {
    assert_eq!(
        out_headers(&strings(&["id", "lat", "lon"])),
        strings(&["id", "lat", "lon", "geohash", "neighborhood"])
    );
    let files = neighborhood_topics(&strings(&["A", "B"]), &strings(&["f_0", "f_1", "f_e"]));
    let neighborhoods = vec![Some("B".to_string()), None, Some("Z".to_string())];
    assert_eq!(
        files_of_messages(&neighborhoods, &files, "f_e"),
        strings(&["f_1", "f_e", "f_e"])
    );
}
