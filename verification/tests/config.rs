use gix_kit::config::body::Body;
use gix_kit::config::value::normalize;
use gix_kit::config::value_name::ValueName;
use gix_kit::config::Event;

fn name(text: &str) -> Event {
    Event::SectionValueName(ValueName::from_str_unchecked(text))
}

fn value(text: &str) -> Event {
    Event::Value(text.as_bytes().to_vec())
}

fn blank() -> Event {
    Event::Whitespace(b" ".to_vec())
}

fn newline() -> Event {
    Event::Newline(b"\n".to_vec())
}

/// `a = 1`, `b` alone, `a = "x y"` over two lines, `c = last`.
fn sample() -> Body {
    Body(vec![
        newline(),
        name("a"),
        blank(),
        Event::KeyValueSeparator,
        blank(),
        value("1"),
        newline(),
        name("b"),
        value(""),
        newline(),
        name("A"),
        Event::KeyValueSeparator,
        Event::ValueNotDone(b"\"x ".to_vec()),
        newline(),
        Event::ValueDone(b"y\"".to_vec()),
        newline(),
        name("c"),
        Event::KeyValueSeparator,
        value("last"),
    ])
}

#[test]
fn last_value_of_a_name_counts() {
    let body = sample();
    assert_eq!(body.value("a"), Some(b"x y".to_vec()));
    assert_eq!(body.value("A"), Some(b"x y".to_vec()));
    assert_eq!(body.value("c"), Some(b"last".to_vec()));
    assert_eq!(body.value("missing"), None);
}

#[test]
fn name_without_separator_has_an_implicit_value() {
    let body = sample();
    assert_eq!(body.value("b"), None);
    assert_eq!(body.value_implicit("b"), Some(None));
    assert_eq!(body.value_implicit("B"), Some(None));
    assert_eq!(body.value_implicit("a"), Some(Some(b"x y".to_vec())));
    assert_eq!(body.value_implicit("missing"), None);
}

#[test]
fn all_values_of_a_name_come_in_order() {
    let body = sample();
    assert_eq!(body.values("a"), vec![b"1".to_vec(), b"x y".to_vec()]);
    assert_eq!(body.values("b"), vec![b"".to_vec()]);
    assert_eq!(body.values("c"), vec![b"last".to_vec()]);
    assert!(body.values("missing").is_empty());
}

#[test]
fn names_are_listed_and_counted() {
    let body = sample();
    let names: Vec<Vec<u8>> = body.value_names().into_iter().map(|n| n.0.clone()).collect();
    assert_eq!(names, vec![b"a".to_vec(), b"b".to_vec(), b"A".to_vec(), b"c".to_vec()]);
    assert_eq!(body.num_values(), 4);
    assert!(body.contains_value_name("a"));
    assert!(body.contains_value_name("C"));
    assert!(!body.contains_value_name("d"));
    assert!(!body.contains_value_name(""));
}

#[test]
fn void_body_holds_nothing() {
    let body = Body::default();
    assert!(body.is_void());
    assert_eq!(body.num_values(), 0);
    assert!(body.value_names().is_empty());
    assert!(!body.contains_value_name("a"));
    assert_eq!(body.value("a"), None);
    assert_eq!(body.value_implicit("a"), None);
    assert!(body.values("a").is_empty());
    assert!(body.as_ref().is_empty());
    assert!(body.key_and_value_range_by(&ValueName::from_str_unchecked("a")).is_none());
    assert!(body.into_iter().next().is_none());
    assert!(!Body(vec![blank()]).is_void());
    assert_eq!(Body(vec![blank()]).num_values(), 0);
}

#[test]
fn ranges_cover_name_and_value() {
    let body = sample();
    assert_eq!(
        body.key_and_value_range_by(&ValueName::from_str_unchecked("c")),
        Some((16..19, Some(18..19)))
    );
    assert_eq!(
        body.key_and_value_range_by(&ValueName::from_str_unchecked("a")),
        Some((10..15, Some(12..15)))
    );
    assert_eq!(
        body.key_and_value_range_by(&ValueName::from_str_unchecked("b")),
        Some((7..9, None))
    );
    assert_eq!(body.key_and_value_range_by(&ValueName::from_str_unchecked("x")), None);
    assert_eq!(body.as_ref().len(), 19);
}

#[test]
fn iteration_pairs_names_with_values() {
    let mut iter = sample().into_iter();
    let mut seen = Vec::new();
    while let Some((name, value)) = iter.next() {
        seen.push((name.0, value));
    }
    assert_eq!(
        seen,
        vec![
            (b"a".to_vec(), b"1".to_vec()),
            (b"b".to_vec(), b"".to_vec()),
            (b"A".to_vec(), b"x y".to_vec()),
            (b"c".to_vec(), b"last".to_vec()),
        ]
    );
    assert!(iter.next().is_none());
}

#[test]
fn value_without_a_name_ends_the_iteration_step() {
    let mut iter = Body(vec![value("stray"), name("k"), Event::KeyValueSeparator, value("v")]).into_iter();
    assert!(iter.next().is_none());
    assert_eq!(iter.next(), Some((ValueName::from_str_unchecked("k"), b"v".to_vec())));
    assert!(iter.next().is_none());
}

#[test]
fn value_names_compare_without_case() {
    assert_eq!(ValueName::from_str_unchecked("Url"), ValueName::from_str_unchecked("uRL"));
    assert_ne!(ValueName::from_str_unchecked("url"), ValueName::from_str_unchecked("urls"));
    assert_ne!(ValueName::from_str_unchecked("a-b"), ValueName::from_str_unchecked("a_b"));
}

#[test]
fn quotes_are_removed() {
    assert_eq!(normalize(b"\"\""), b"".to_vec());
    assert_eq!(normalize(b"\"hello world\""), b"hello world".to_vec());
    assert_eq!(normalize(b"\"\"hello\"\""), b"hello".to_vec());
    assert_eq!(normalize(b"\"\"\"\""), b"".to_vec());
    assert_eq!(normalize(b"hello \"big\" world"), b"hello big world".to_vec());
    assert_eq!(normalize(b"plain"), b"plain".to_vec());
    assert_eq!(normalize(b""), b"".to_vec());
    assert_eq!(normalize(b"\""), b"".to_vec());
}

#[test]
fn escapes_are_resolved() {
    assert_eq!(normalize(b"a\\nb"), b"a\nb".to_vec());
    assert_eq!(normalize(b"a\\tb"), b"a\tb".to_vec());
    assert_eq!(normalize(b"ab\\bc"), b"ac".to_vec());
    assert_eq!(normalize(b"\\bc"), b"c".to_vec());
    assert_eq!(normalize(b"a\\\\b"), b"a\\b".to_vec());
    assert_eq!(normalize(b"say \\\"hi\\\""), b"say \"hi\"".to_vec());
    assert_eq!(normalize(b"end\\"), b"end".to_vec());
    assert_eq!(normalize(b"\"a\\\"\""), b"a\"".to_vec());
    assert_eq!(normalize(b"\"keep\\\""), b"keep\"".to_vec());
}
