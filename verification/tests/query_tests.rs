use memoria::query::{build_fts_prefix_query, query_terms, tokenize};

#[test]
fn punctuation_separates_and_case_is_folded() {
    assert_eq!(query_terms("Hel, wor!!"), vec!["hel*".to_string(), "wor*".to_string()]);
    assert_eq!(build_fts_prefix_query("Hel, wor!!"), "hel* wor*");
}

#[test]
fn plain_words_become_prefix_terms() {
    assert_eq!(build_fts_prefix_query("hel wor"), "hel* wor*");
    assert_eq!(build_fts_prefix_query("one"), "one*");
}

#[test]
fn punctuation_alone_asks_for_nothing() {
    assert_eq!(build_fts_prefix_query("!!! ,,, ???"), "");
    assert!(query_terms("!!! ,,, ???").is_empty());
    assert_eq!(build_fts_prefix_query(""), "");
    assert_eq!(build_fts_prefix_query("   "), "");
    assert_eq!(build_fts_prefix_query("\"*()"), "");
}

#[test]
fn underscore_hyphen_and_digits_are_kept() {
    assert_eq!(build_fts_prefix_query("foo_bar-baz 42"), "foo_bar-baz* 42*");
    assert_eq!(build_fts_prefix_query("A-1_b"), "a-1_b*");
}

#[test]
fn other_characters_end_a_token() {
    assert_eq!(build_fts_prefix_query("caf\u{e9} au lait"), "caf* au* lait*");
    assert_eq!(build_fts_prefix_query("a.b:c"), "a* b* c*");
    assert_eq!(build_fts_prefix_query("x\ty\nz"), "x* y* z*");
}

#[test]
fn operators_and_quotes_do_not_pass() {
    assert_eq!(build_fts_prefix_query("\"a\" OR b*"), "a* or* b*");
    assert_eq!(build_fts_prefix_query("NEAR(a b)"), "near* a* b*");
}

#[test]
fn at_most_twelve_terms() {
    let input = "a b c d e f g h i j k l m n o";
    let terms = query_terms(input);
    assert_eq!(terms.len(), 12);
    assert_eq!(terms[0], "a*");
    assert_eq!(terms[11], "l*");
    assert_eq!(build_fts_prefix_query(input), "a* b* c* d* e* f* g* h* i* j* k* l*");
}

#[test]
fn exactly_twelve_terms_are_all_kept() {
    let input = "a b c d e f g h i j k l";
    assert_eq!(query_terms(input).len(), 12);
}

#[test]
fn tokens_are_the_runs_of_kept_characters() {
    let tokens: Vec<String> = tokenize("..Ab__ cd--").into_iter().map(|t| t.into_iter().collect()).collect();
    assert_eq!(tokens, vec!["ab__".to_string(), "cd--".to_string()]);
}
