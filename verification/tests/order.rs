use gpu_telemetry::order::chars_of;
use gpu_telemetry::order::order_by_keys;
use gpu_telemetry::order::order_of;
use gpu_telemetry::order::precedes;

fn chars(text: &str) -> Vec<char> {
    text.chars().collect()
}

fn keys(texts: &[&str]) -> Vec<String> {
    texts.iter().map(|text| text.to_string()).collect()
}

#[test]
fn chars_of_gives_each_character() {
    assert_eq!(chars_of(""), Vec::<char>::new());
    assert_eq!(chars_of("abc"), vec!['a', 'b', 'c']);
    assert_eq!(chars_of("é√z"), vec!['é', '√', 'z']);
}

#[test]
fn precedes_is_dictionary_order() {
    assert!(precedes(&chars(""), &chars("")));
    assert!(precedes(&chars(""), &chars("a")));
    assert!(!precedes(&chars("a"), &chars("")));
    assert!(precedes(&chars("a"), &chars("a")));
    assert!(precedes(&chars("a"), &chars("b")));
    assert!(!precedes(&chars("b"), &chars("a")));
    assert!(precedes(&chars("ab"), &chars("abc")));
    assert!(!precedes(&chars("abc"), &chars("ab")));
    assert!(precedes(&chars("abc"), &chars("abd")));
    assert!(precedes(&chars("B"), &chars("a")));
    assert!(!precedes(&chars("b"), &chars("a")));
    assert!(precedes(&chars("z"), &chars("é")));
}

#[test]
fn precedes_agrees_with_string_order() {
    let texts = ["", "a", "A", "ab", "abc", "b", "beta", "alpha", "Alpha", "é", "z", "10", "9"];
    for a in texts {
        for b in texts {
            assert_eq!(precedes(&chars(a), &chars(b)), a <= b);
        }
    }
}

#[test]
fn order_of_nothing_is_empty() {
    assert_eq!(order_of(&Vec::new()), Vec::<usize>::new());
    assert_eq!(order_by_keys(&Vec::new()), Vec::<usize>::new());
}

#[test]
fn order_sorts_ascending() {
    assert_eq!(order_by_keys(&keys(&["c", "a", "b"])), vec![1, 2, 0]);
    assert_eq!(order_by_keys(&keys(&["a", "b", "c"])), vec![0, 1, 2]);
    assert_eq!(order_by_keys(&keys(&["c", "b", "a"])), vec![2, 1, 0]);
    assert_eq!(order_of(&vec![chars("c"), chars("a"), chars("b")]), vec![1, 2, 0]);
}

#[test]
fn equal_keys_keep_their_order() {
    assert_eq!(order_by_keys(&keys(&["beta", "alpha", "alpha"])), vec![1, 2, 0]);
    assert_eq!(order_by_keys(&keys(&["x", "x", "x", "x"])), vec![0, 1, 2, 3]);
    assert_eq!(order_by_keys(&keys(&["b", "a", "b", "a", "b"])), vec![1, 3, 0, 2, 4]);
}

#[test]
fn order_agrees_with_a_stable_sort() {
    let texts = keys(&["pear", "fig", "apple", "fig", "", "kiwi", "apple", "Fig", "pear", "a"]);
    let mut expected: Vec<usize> = (0..texts.len()).collect();
    expected.sort_by(|a, b| texts[*a].cmp(&texts[*b]));
    assert_eq!(order_by_keys(&texts), expected);
}
