use bloombot::help::{HelpConfiguration, OrderedMap};

#[test]
fn ordered_map_keeps_insertion_order() {
    let mut m: OrderedMap<String, u32> = OrderedMap::new();
    m.insert("b".to_string(), 1);
    m.insert("a".to_string(), 2);
    m.insert("b".to_string(), 3);
    assert_eq!(m.0, vec![("b".to_string(), 3), ("a".to_string(), 2)]);
    assert_eq!(m.get(&"a".to_string()), Some(&2));
    assert_eq!(m.get(&"c".to_string()), None);
}

#[test]
fn get_or_insert_with_inserts_once() {
    let mut m: OrderedMap<&str, Vec<u32>> = OrderedMap::new();
    m.get_or_insert_with("x", Vec::new).push(1);
    m.get_or_insert_with("y", Vec::new).push(2);
    m.get_or_insert_with("x", || vec![99]).push(3);
    assert_eq!(m.0, vec![("x", vec![1, 3]), ("y", vec![2])]);
    let d: OrderedMap<u8, u8> = OrderedMap::default();
    assert!(d.0.is_empty());
}

#[test]
fn help_defaults() {
    let c = HelpConfiguration::default();
    assert_eq!(c.extra_text_at_bottom, "");
    assert!(c.ephemeral);
    assert!(!c.show_context_menu_commands);
}
