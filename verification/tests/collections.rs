use justlogs_aggregator::dedup::{DedupSet, Record};
use justlogs_aggregator::listmap::ListMap;
use justlogs_aggregator::logs::Channel;

fn channel(name: &str, user_id: &str) -> Channel {
    Channel { name: name.to_string(), user_id: user_id.to_string() }
}

#[test]
fn set_takes_a_value_once() {
    let mut set: DedupSet<Channel> = DedupSet::new();
    assert_eq!(set.len(), 0);
    assert!(set.insert(channel("x", "1")));
    assert!(!set.insert(channel("x", "1")));
    assert!(set.insert(channel("x", "2")));
    assert_eq!(set.len(), 2);
    assert!(set.contains(&channel("x", "2")));
    assert!(!set.contains(&channel("y", "1")));
    assert_eq!(set.into_vec(), vec![channel("x", "1"), channel("x", "2")]);
}

#[test]
fn set_absorbs_a_list_in_order() {
    let mut set: DedupSet<Channel> = DedupSet::new();
    set.insert(channel("b", "2"));
    set.extend(&vec![channel("a", "1"), channel("b", "2"), channel("a", "1"), channel("c", "3")]);
    assert_eq!(set.items(), &vec![channel("b", "2"), channel("a", "1"), channel("c", "3")]);
}

#[test]
fn records_are_told_apart_by_every_field() {
    assert!(channel("x", "1").same(&channel("x", "1")));
    assert!(!channel("x", "1").same(&channel("x", "2")));
    assert!(!channel("x", "1").same(&channel("y", "1")));
    assert_eq!(channel("x", "1").duplicate(), channel("x", "1"));
    assert!(channel("x", "1") == channel("x", "1"));
    assert!(channel("x", "1") != channel("1", "x"));
}

#[test]
fn map_replaces_the_value_of_a_known_name() {
    let mut map: ListMap<u32> = ListMap::new();
    assert!(map.insert("a".to_string(), 1));
    assert!(map.insert("b".to_string(), 2));
    assert!(!map.insert("a".to_string(), 3));
    assert_eq!(map.len(), 2);
    assert_eq!(map.get("a"), Some(&3));
    assert_eq!(map.get("b"), Some(&2));
    assert_eq!(map.get("c"), None);
    assert_eq!(map.position("b"), Some(1));
    assert_eq!(map.position("z"), None);
    assert_eq!(map.key_at(0), "a");
    assert_eq!(map.value_at(0), &3);
    assert_eq!(map.key_at(1), "b");
}

#[test]
fn map_tells_names_apart_exactly() {
    let mut map: ListMap<u32> = ListMap::new();
    map.insert("a.example".to_string(), 1);
    assert_eq!(map.get("A.example"), None);
    assert_eq!(map.get("a.example "), None);
    assert_eq!(map.get(""), None);
    assert!(map.insert("".to_string(), 0));
    assert_eq!(map.get(""), Some(&0));
}
