use mod_counter::table::Aggregate;
use mod_counter::table::CountMap;

#[test]
fn count_map_keeps_insertion_order() {
    let mut m: CountMap = CountMap::new();
    m.insert("0".to_string(), 150);
    m.insert("4".to_string(), 87);
    m.insert("5".to_string(), 3);
    assert_eq!(m.len(), 3);
    assert_eq!(m.key_at(0), "0");
    assert_eq!(m.count_at(0), 150);
    assert_eq!(m.key_at(1), "4");
    assert_eq!(m.count_at(1), 87);
    assert_eq!(m.key_at(2), "5");
    assert_eq!(m.count_at(2), 3);
}

#[test]
fn count_map_replaces_in_place() {
    let mut m: CountMap = CountMap::new();
    m.insert("0".to_string(), 150);
    m.insert("4".to_string(), 87);
    m.insert("0".to_string(), 99);
    assert_eq!(m.len(), 2);
    assert_eq!(m.key_at(0), "0");
    assert_eq!(m.count_at(0), 99);
    assert_eq!(m.key_at(1), "4");
    assert_eq!(m.count_at(1), 87);
}

#[test]
fn aggregate_keeps_insertion_order_and_replaces_duplicates() {
    let mut inner1: CountMap = CountMap::new();
    inner1.insert("0".to_string(), 1);
    let mut inner2: CountMap = CountMap::new();
    inner2.insert("4".to_string(), 2);
    let mut inner3: CountMap = CountMap::new();
    inner3.insert("5".to_string(), 3);

    let mut a: Aggregate = Aggregate::new();
    a.insert("1.20.1".to_string(), inner1);
    a.insert("1.19.2".to_string(), inner2);
    assert_eq!(a.len(), 2);
    assert_eq!(a.key_at(0), "1.20.1");
    assert_eq!(a.key_at(1), "1.19.2");
    assert_eq!(a.value_at(1).key_at(0), "4");

    a.insert("1.20.1".to_string(), inner3);
    assert_eq!(a.len(), 2);
    assert_eq!(a.key_at(0), "1.20.1");
    assert_eq!(a.value_at(0).key_at(0), "5");
    assert_eq!(a.value_at(0).count_at(0), 3);
}

#[test]
fn taking_a_count_map_empties_it() {
    let mut m: CountMap = CountMap::new();
    m.insert("1".to_string(), 10);
    let taken: CountMap = m.take();
    assert_eq!(taken.len(), 1);
    assert_eq!(m.len(), 0);
}
