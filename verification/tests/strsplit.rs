use pointers::strsplit::Delimiter;
use pointers::strsplit::StrSplit;
use pointers::strsplit::until_char;

#[test]
fn until_char_test() {
    assert_eq!(until_char("hello world", 'o'), "hell");
}

#[test]
fn it_works() {
    let haystack = "a b c d e";
    let mut split = StrSplit::new(haystack, " ");
    let mut letters: Vec<&str> = Vec::new();
    while let Some(piece) = split.next() {
        letters.push(piece);
    }
    assert_eq!(letters, vec!["a", "b", "c", "d", "e"]);
}

#[test]
fn tail() {
    let haystack = "a b c d ";
    let mut split = StrSplit::new(haystack, " ");
    let mut letters: Vec<&str> = Vec::new();
    while let Some(piece) = split.next() {
        letters.push(piece);
    }
    assert_eq!(letters, vec!["a", "b", "c", "d", ""]);
}

#[test]
fn char_not_found_gives_whole_string() {
    assert_eq!(until_char("hello", 'z'), "hello");
}

#[test]
fn char_at_start_gives_empty_prefix() {
    assert_eq!(until_char("hello", 'h'), "");
}

#[test]
fn char_delimiter_find_next() {
    assert_eq!(Delimiter::find_next(&'b', "abc"), Some((1, 2)));
    assert_eq!(Delimiter::find_next(&'z', "abc"), None);
    assert_eq!(Delimiter::find_next(&'a', ""), None);
}

#[test]
fn str_delimiter_find_next() {
    assert_eq!(Delimiter::find_next(&"cd", "abcdef"), Some((2, 4)));
    assert_eq!(Delimiter::find_next(&"ab", "abcdef"), Some((0, 2)));
    assert_eq!(Delimiter::find_next(&"fg", "abcdef"), None);
    assert_eq!(Delimiter::find_next(&"abcdefg", "abcdef"), None);
    assert_eq!(Delimiter::find_next(&"", "abcdef"), Some((0, 0)));
    assert_eq!(Delimiter::find_next(&"aba", "ababa"), Some((0, 3)));
}

#[test]
fn multi_character_delimiter_splits() {
    let mut split = StrSplit::new("one::two::three", "::");
    let mut pieces: Vec<&str> = Vec::new();
    while let Some(piece) = split.next() {
        pieces.push(piece);
    }
    assert_eq!(pieces, vec!["one", "two", "three"]);
}

#[test]
fn no_delimiter_yields_one_piece() {
    let mut split = StrSplit::new("alone", "::");
    assert_eq!(split.next(), Some("alone"));
    assert_eq!(split.next(), None);
    assert_eq!(split.next(), None);
}
