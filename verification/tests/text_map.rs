use oncall_ai::text_map::Labels;

fn labels(pairs: &[(&str, &str)]) -> Labels {
    let mut labels = Labels::new();
    for (key, value) in pairs {
        labels.insert((*key).to_owned(), (*value).to_owned());
    }
    labels
}

fn pairs(labels: &Labels) -> Vec<(String, String)> {
    (0..labels.len())
        .map(|i| {
            let (key, value) = labels.at(i);
            (key.to_owned(), value.clone())
        })
        .collect()
}

#[test]
fn entries_come_in_the_order_of_their_keys() {
    let map = labels(&[("service", "checkout"), ("alertname", "Slow"), ("urgency", "high")]);
    assert_eq!(
        pairs(&map),
        vec![
            ("alertname".to_owned(), "Slow".to_owned()),
            ("service".to_owned(), "checkout".to_owned()),
            ("urgency".to_owned(), "high".to_owned()),
        ]
    );
}

#[test]
fn a_later_value_takes_the_place_of_an_earlier_one() {
    let map = labels(&[("a", "1"), ("b", "2"), ("a", "3")]);
    assert_eq!(map.len(), 2);
    assert_eq!(map.get("a").map(String::as_str), Some("3"));
    assert_eq!(map.get("b").map(String::as_str), Some("2"));
    assert_eq!(map.get("c"), None);
}

#[test]
fn maps_are_the_same_whatever_the_order_of_insertion() {
    let one = labels(&[("a", "1"), ("b", "2")]);
    let other = labels(&[("b", "2"), ("a", "1")]);
    assert!(one.same(&other));
    assert!(one.same(&one.clone()));
    assert!(!one.same(&labels(&[("a", "1")])));
    assert!(!one.same(&labels(&[("a", "1"), ("b", "3")])));
    assert!(!one.same(&labels(&[("a", "1"), ("c", "2")])));
    assert!(labels(&[]).same(&Labels::new()));
}
