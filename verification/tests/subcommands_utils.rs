use edge_approximate::producer::subcommands::get_zookeeper_string;

#[test]
fn test_zookeeper_string_with_more_entries() {
    let zookeeper_arr = vec![
        "192.168.56.10:2181".to_owned(),
        "192.168.56.11:2181".to_owned(),
    ];
    assert_eq!(
        get_zookeeper_string(&zookeeper_arr),
        "192.168.56.10:2181,192.168.56.11:2181"
    )
}

#[test]
fn test_zookeeper_string_with_one_entry() {
    let zookeeper_arr = vec!["192.168.56.10:2181".to_owned()];
    assert_eq!(get_zookeeper_string(&zookeeper_arr), "192.168.56.10:2181")
}

#[test]
fn zookeeper_string_of_no_entry_is_empty() {
    let zookeeper_arr: Vec<String> = vec![];
    assert_eq!(get_zookeeper_string(&zookeeper_arr), "")
}

#[test]
fn zookeeper_string_splits_back_into_the_hosts() {
    let hosts = vec!["zk1:2181".to_string(), "zk2:2181".to_string(), "zk3:2181".to_string()];
    let joined = get_zookeeper_string(&hosts);
    let split: Vec<String> = joined.split(',').map(String::from).collect();
    assert_eq!(split, hosts);
    assert_eq!(joined.len(), 8 * 3 + 2);
}
