use json_surf::prelude::FuzzyConfig;

#[test]
fn validate_default_fuzzy_config() {
    let corpus = "corpus/frequency_names.txt".to_string();
    let term_index = 0i64;
    let count_index = 1i64;
    let separator = " ".to_string();
    let expected = FuzzyConfig::new(corpus, term_index, count_index, separator);
    let computed = FuzzyConfig::default();
    assert_eq!(computed, expected);
}

#[test]
fn fuzzy_config_accessors() {
    let config = FuzzyConfig::new("words.txt".to_string(), 2, 3, "\t".to_string());
    assert_eq!(config.corpus().as_str(), "words.txt");
    assert_eq!(config.term_index(), 2);
    assert_eq!(config.count_index(), 3);
    assert_eq!(config.separator().as_str(), "\t");
}
