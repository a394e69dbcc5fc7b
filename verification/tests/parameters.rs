use lanequeue::parameters::Parameters;

fn pairs(v: &[(&str, &str)]) -> Vec<(String, String)> {
    v.iter().map(|(k, s)| (k.to_string(), s.to_string())).collect()
}

#[test]
fn iter_parses_pairs() {
    let got = Parameters::iter("a=b;c=d|e;f=g");
    assert_eq!(got, pairs(&[("a", "b"), ("c", "d|e"), ("f", "g")]));
}

#[test]
fn iter_empty_string_gives_nothing() {
    assert_eq!(Parameters::iter(""), pairs(&[]));
}

#[test]
fn iter_skips_empty_chunks() {
    let got = Parameters::iter(";;a=b;;c;");
    assert_eq!(got, pairs(&[("a", "b"), ("c", "")]));
}

#[test]
fn iter_splits_at_first_field_separator() {
    let got = Parameters::iter("a=b=c");
    assert_eq!(got, pairs(&[("a", "b=c")]));
}

#[test]
fn get_finds_first_occurrence() {
    assert_eq!(Parameters::get("a=1;b=2;a=3", "a"), Some("1".to_string()));
    assert_eq!(Parameters::get("a=1;b=2", "b"), Some("2".to_string()));
    assert_eq!(Parameters::get("a=1;b=2", "c"), None);
}

#[test]
fn get_bare_key_has_empty_value() {
    assert_eq!(Parameters::get("a;b=1", "a"), Some("".to_string()));
}

#[test]
fn values_of_bare_key_is_one_empty_value() {
    assert_eq!(Parameters::values("a;b=1", "a"), vec!["".to_string()]);
}

#[test]
fn values_splits_on_value_separator() {
    let got = Parameters::values("a=1|2|3;b=x", "a");
    assert_eq!(got, vec!["1".to_string(), "2".to_string(), "3".to_string()]);
}

#[test]
fn values_absent_key_gives_nothing() {
    let got = Parameters::values("a=1|2;b=x", "c");
    assert!(got.is_empty());
}

#[test]
fn from_iter_sorts_by_key() {
    let input = pairs(&[("c", "3"), ("a", "1"), ("b", "2")]);
    assert_eq!(Parameters::from_iter(&input), "a=1;b=2;c=3");
}

#[test]
fn from_iter_skips_empty_keys_and_bare_values() {
    let input = pairs(&[("", "x"), ("flag", ""), ("a", "1")]);
    assert_eq!(Parameters::from_iter(&input), "a=1;flag");
}

#[test]
fn from_iter_into_appends() {
    let input = pairs(&[("b", "2"), ("a", "1")]);
    let mut into = String::from("pre:");
    Parameters::from_iter_into(&input, &mut into);
    assert_eq!(into, "pre:a=1;b=2");
}

#[test]
fn from_slice_mut_sorts_in_place() {
    let mut slice = pairs(&[("b", "2"), ("a", "1")]);
    let rendered = Parameters::from_slice_mut(&mut slice);
    assert_eq!(rendered, "a=1;b=2");
    assert_eq!(slice, pairs(&[("a", "1"), ("b", "2")]));
}

#[test]
fn from_slice_mut_into_appends_and_sorts() {
    let mut slice = pairs(&[("z", "9"), ("m", "5")]);
    let mut into = String::new();
    Parameters::from_slice_mut_into(&mut slice, &mut into);
    assert_eq!(into, "m=5;z=9");
    assert_eq!(slice, pairs(&[("m", "5"), ("z", "9")]));
}

#[test]
fn insert_replaces_and_reports_old_value() {
    let input = Parameters::iter("b=1;a=2");
    let (rendered, old) = Parameters::insert(&input, "b", "9");
    assert_eq!(rendered, "a=2;b=9");
    assert_eq!(old, Some("1".to_string()));
}

#[test]
fn insert_fresh_key() {
    let input = Parameters::iter("b=1");
    let (rendered, old) = Parameters::insert(&input, "a", "0");
    assert_eq!(rendered, "a=0;b=1");
    assert_eq!(old, None);
}

#[test]
fn remove_consumes_pairs_before_the_match() {
    let input = Parameters::iter("a=1;b=2;c=3");
    let (rendered, old) = Parameters::remove(&input, "b");
    // the search consumes "a=1" and "b=2"; only what follows is rendered
    assert_eq!(rendered, "c=3");
    assert_eq!(old, Some("2".to_string()));
}

#[test]
fn remove_filters_the_key_from_what_remains() {
    let input = Parameters::iter("b=1;a=2;b=3");
    let (rendered, old) = Parameters::remove(&input, "b");
    assert_eq!(rendered, "a=2");
    assert_eq!(old, Some("1".to_string()));
}

#[test]
fn remove_absent_key_renders_nothing() {
    // without a match the search consumes every pair
    let input = Parameters::iter("b=1;a=2");
    let (rendered, old) = Parameters::remove(&input, "c");
    assert_eq!(rendered, "");
    assert_eq!(old, None);
}

#[test]
fn extend_merges_and_sorts() {
    let current = Parameters::iter("c=3;a=1");
    let new = Parameters::iter("b=2");
    assert_eq!(Parameters::extend(&current, &new), "a=1;b=2;c=3");
}

#[test]
fn extend_keeps_both_pairs_of_an_equal_key_stably() {
    let current = Parameters::iter("a=1");
    let new = Parameters::iter("a=2");
    assert_eq!(Parameters::extend(&current, &new), "a=1;a=2");
}

#[test]
fn is_sorted_accepts_sorted_keys() {
    assert!(Parameters::is_sorted(&pairs(&[("a", "1"), ("a", "2"), ("b", "3")])));
    assert!(Parameters::is_sorted(&pairs(&[])));
}

#[test]
fn is_sorted_rejects_unsorted_keys() {
    assert!(!Parameters::is_sorted(&pairs(&[("b", "1"), ("a", "2")])));
}

#[test]
fn rand_appends_parseable_pairs() {
    let mut s = String::from("seed=0");
    Parameters::rand(&mut s);
    assert!(s.starts_with("seed=0"));
    assert!(s.len() > "seed=0".len());
    let appended = &s["seed=0".len()..];
    // the drawn keys and values are alphanumeric, two or more pairs
    let parsed = Parameters::iter(appended);
    assert!((2..=7).contains(&parsed.len()));
    for (k, v) in &parsed {
        assert!((2..=7).contains(&k.len()) && k.chars().all(|c| c.is_ascii_alphanumeric()));
        assert!((2..=7).contains(&v.len()) && v.chars().all(|c| c.is_ascii_alphanumeric()));
    }
}
