use docsearch::doc::Doc;

#[test]
fn a_document_counts_its_terms() {
    let doc = Doc::new("the cat sat, the cat ran; the end.");
    assert_eq!(doc.total_terms(), 8);
    assert_eq!(doc.frequency("the"), 3);
    assert_eq!(doc.frequency("cat"), 2);
    assert_eq!(doc.frequency("sat"), 1);
    assert_eq!(doc.frequency("end"), 1);
    assert_eq!(doc.frequency("dog"), 0);
}

#[test]
fn terms_are_counted_under_their_normal_form() {
    let doc = Doc::new("Running runs RUN! (run)");
    assert_eq!(doc.total_terms(), 4);
    assert_eq!(doc.frequency("run"), 4);
    assert_eq!(doc.frequency("running"), 0);
}

#[test]
fn the_distinct_terms_come_once_each() {
    let doc = Doc::new("b a b c a b");
    let mut keys = doc.distinct_terms();
    keys.sort();
    assert_eq!(keys, vec!["a".to_string(), "b".to_string(), "c".to_string()]);
}

#[test]
fn an_empty_text_gives_a_document_without_terms() {
    let doc = Doc::new("");
    assert_eq!(doc.total_terms(), 0);
    assert_eq!(doc.frequency("cat"), 0);
    assert!(doc.distinct_terms().is_empty());
}

#[test]
fn a_text_of_rejected_tokens_gives_a_document_without_terms() {
    let text = format!("... ,,, {} ;;;", "x".repeat(100));
    let doc = Doc::new(&text);
    assert_eq!(doc.total_terms(), 0);
    assert!(doc.distinct_terms().is_empty());
}

#[test]
fn the_total_is_the_sum_of_the_frequencies() {
    let doc = Doc::new("one two two three three three");
    let sum: usize = doc.distinct_terms().iter().map(|t| doc.frequency(t)).sum();
    assert_eq!(sum, doc.total_terms());
    assert_eq!(doc.total_terms(), 6);
}

#[test]
fn a_document_can_be_built_from_terms() {
    let words: Vec<String> = ["b", "a", "b", "Running!", "b"].iter().map(|w| w.to_string()).collect();
    let doc = Doc::from_terms(words);
    assert_eq!(doc.total_terms(), 5);
    assert_eq!(doc.frequency("b"), 3);
    assert_eq!(doc.frequency("a"), 1);
    assert_eq!(doc.frequency("Running!"), 1);
    assert_eq!(doc.frequency("run"), 0);
    assert_eq!(Doc::from_terms(Vec::new()).total_terms(), 0);
}
