use batch_uploader::record::{Number, Record};
use batch_uploader::text::text_eq;

fn text(s: &str) -> Record {
    Record::String(s.to_string())
}

fn num(n: u64) -> Record {
    Record::Number(Number::PosInt(n))
}

fn object(members: Vec<(&str, Record)>) -> Record {
    Record::Object(members.into_iter().map(|(k, v)| (k.to_string(), v)).collect())
}

#[test]
fn get_finds_a_member_by_its_key() {
    let record = object(vec![("a", num(1)), ("b", text("x"))]);
    assert_eq!(record.get("a"), Some(&num(1)));
    assert_eq!(record.get("b"), Some(&text("x")));
    assert_eq!(record.get("c"), None);
    assert_eq!(record.get(""), None);
}

#[test]
fn get_takes_the_later_of_two_members_with_one_key() {
    let record = object(vec![("a", num(1)), ("b", num(2)), ("a", num(3))]);
    assert_eq!(record.get("a"), Some(&num(3)));
    assert_eq!(record.get("b"), Some(&num(2)));
}

#[test]
fn get_finds_nothing_in_what_is_no_object() {
    assert_eq!(Record::Null.get("a"), None);
    assert_eq!(text("a").get("a"), None);
    assert_eq!(Record::Array(vec![object(vec![("a", num(1))])]).get("a"), None);
    assert_eq!(object(vec![]).get("a"), None);
}

#[test]
fn get_tells_keys_apart_by_every_character() {
    let record = object(vec![("name", num(1)), ("näme", num(2)), ("nam", num(3))]);
    assert_eq!(record.get("name"), Some(&num(1)));
    assert_eq!(record.get("näme"), Some(&num(2)));
    assert_eq!(record.get("nam"), Some(&num(3)));
    assert_eq!(record.get("names"), None);
}

#[test]
fn as_u64_reads_integers_from_zero_up_only() {
    assert_eq!(num(0).as_u64(), Some(0));
    assert_eq!(num(u64::MAX).as_u64(), Some(u64::MAX));
    assert_eq!(Record::Number(Number::NegInt(-1)).as_u64(), None);
    assert_eq!(Record::Number(Number::Float(1.0f64.to_bits())).as_u64(), None);
    assert_eq!(text("1").as_u64(), None);
    assert_eq!(Record::Null.as_u64(), None);
}

#[test]
fn as_str_reads_strings_only() {
    assert_eq!(text("abc").as_str(), Some("abc"));
    assert_eq!(text("").as_str(), Some(""));
    assert_eq!(num(1).as_str(), None);
    assert_eq!(Record::Bool(true).as_str(), None);
}

#[test]
fn as_array_reads_arrays_only() {
    let items = vec![num(1), text("x")];
    assert_eq!(Record::Array(items.clone()).as_array(), Some(&items));
    assert_eq!(object(vec![]).as_array(), None);
    assert_eq!(Record::Null.as_array(), None);
}

#[test]
fn as_object_reads_objects_only() {
    let members = vec![("a".to_string(), num(1))];
    assert_eq!(Record::Object(members.clone()).as_object(), Some(&members));
    assert_eq!(Record::Array(vec![]).as_object(), None);
}

#[test]
fn clone_keeps_the_whole_tree() {
    let record = object(vec![
        ("a", Record::Array(vec![num(1), Record::Null, Record::Bool(false)])),
        ("b", object(vec![("c", text("d")), ("e", Record::Number(Number::NegInt(-7)))])),
        ("f", Record::Number(Number::Float(2.5f64.to_bits()))),
    ]);
    assert_eq!(record.clone(), record);
    assert_eq!(Record::Null.clone(), Record::Null);
}

#[test]
fn text_eq_compares_characters() {
    assert!(text_eq("", ""));
    assert!(text_eq("abc", "abc"));
    assert!(!text_eq("abc", "abd"));
    assert!(!text_eq("abc", "ab"));
    assert!(!text_eq("ab", "abc"));
    assert!(text_eq("é€", "é€"));
    assert!(!text_eq("é", "e"));
}
