use blockchain_sim::strsplit::{until_char, StrSplit};

#[test]
fn until_char_test() {
    assert_eq!(until_char("hello world", 'o'), "hell");
}

#[test]
fn it_works() {
    let haystack = "a b c d e f";
    let mut split = StrSplit::new(haystack, " ");
    let mut letters: Vec<&str> = Vec::new();
    while let Some(piece) = split.next() {
        letters.push(piece);
    }
    assert_eq!(letters, vec!["a", "b", "c", "d", "e", "f"]);
}

#[test]
fn test_case() {
    let haystack = "a b c d ";
    let mut split = StrSplit::new(haystack, " ");
    let mut letters: Vec<&str> = Vec::new();
    while let Some(piece) = split.next() {
        letters.push(piece);
    }
    assert_eq!(letters, vec!["a", "b", "c", "d", ""]);
}

#[test]
fn until_char_absent() {
    assert_eq!(until_char("hello", 'z'), "hello");
}

#[test]
fn split_by_substring() {
    let mut split = StrSplit::new("one::two::three", "::");
    let mut parts: Vec<&str> = Vec::new();
    while let Some(piece) = split.next() {
        parts.push(piece);
    }
    assert_eq!(parts, vec!["one", "two", "three"]);
}
