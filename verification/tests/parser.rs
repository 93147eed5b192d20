use chlorine::parser::parse_artists;

#[test]
fn test_parse_artists() {
    assert_eq!(parse_artists("Artist One").unwrap(), vec!["Artist One"]);
    assert_eq!(
        parse_artists("Artist One feat. Artist Two").unwrap(),
        vec!["Artist One", "Artist Two"]
    );
    assert_eq!(
        parse_artists("Artist One & Artist Three").unwrap(),
        vec!["Artist One", "Artist Three"]
    );
}

#[test]
fn parse_artists_other_separators() {
    assert_eq!(parse_artists("A ft B").unwrap(), vec!["A", "B"]);
    assert_eq!(parse_artists("A FEATURING B with C").unwrap(), vec!["A", "B", "C"]);
    assert_eq!(parse_artists("A x B and C").unwrap(), vec!["A", "B", "C"]);
}

#[test]
fn parse_artists_keeps_words_containing_separators() {
    assert_eq!(parse_artists("Xavier Rudd").unwrap(), vec!["Xavier Rudd"]);
    assert_eq!(parse_artists("Band&Friends").unwrap(), vec!["Band&Friends"]);
}

#[test]
fn parse_artists_empty_credit() {
    assert_eq!(parse_artists("").unwrap(), vec![""]);
}
