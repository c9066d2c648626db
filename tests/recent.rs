use fileforge::recent::{RecentDestinations, MAX_RECENT};

fn strings(v: &[&str]) -> Vec<String> {
    v.iter().map(|s| s.to_string()).collect()
}

#[test]
fn reuse_moves_path_to_front_without_duplicate() {
    let mut r = RecentDestinations::from_stored(strings(&["/a", "/b", "/c"]));
    r.add_recent_destination("/b".to_string());
    assert_eq!(r.get_recent_destinations(), strings(&["/b", "/a", "/c"]));
    r.add_recent_destination("/b".to_string());
    assert_eq!(r.get_recent_destinations(), strings(&["/b", "/a", "/c"]));
}

#[test]
fn sixth_distinct_path_evicts_oldest() {
    let mut r = RecentDestinations::new();
    for p in ["/1", "/2", "/3", "/4", "/5"] {
        r.add_recent_destination(p.to_string());
    }
    assert_eq!(r.get_recent_destinations(), strings(&["/5", "/4", "/3", "/2", "/1"]));
    r.add_recent_destination("/6".to_string());
    assert_eq!(r.get_recent_destinations(), strings(&["/6", "/5", "/4", "/3", "/2"]));
    assert_eq!(r.get_recent_destinations().len(), MAX_RECENT);
}

#[test]
fn reading_twice_gives_identical_lists() {
    let stored = strings(&["/x", "/y"]);
    let first = RecentDestinations::from_stored(stored.clone()).get_recent_destinations();
    let second = RecentDestinations::from_stored(stored).get_recent_destinations();
    assert_eq!(first, second);
    let r = RecentDestinations::from_stored(first.clone());
    assert_eq!(r.get_recent_destinations(), r.get_recent_destinations());
    assert_eq!(r.get_recent_destinations(), first);
}

#[test]
fn stored_list_is_deduplicated_and_capped() {
    let r = RecentDestinations::from_stored(strings(&["/a", "/b", "/a", "/c", "/d", "/e", "/f", "/g"]));
    assert_eq!(r.get_recent_destinations(), strings(&["/a", "/b", "/c", "/d", "/e"]));
    assert!(RecentDestinations::from_stored(Vec::new()).get_recent_destinations().is_empty());
    assert!(RecentDestinations::new().get_recent_destinations().is_empty());
}
