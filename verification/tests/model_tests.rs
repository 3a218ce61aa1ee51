use docsearch::builder::{build_mode, BuildMode};
use docsearch::doc::Doc;
use docsearch::model::Model;

fn counted_by_hand(model: &Model, term: &str) -> usize {
    (0..model.size()).filter(|&i| model.doc_at(i).frequency(term) > 0).count()
}

fn check_counts(model: &Model, terms: &[&str]) {
    for term in terms {
        assert_eq!(model.document_frequency(term), counted_by_hand(model, term), "term {}", term);
    }
}

const WORDS: [&str; 8] = ["the", "cat", "sat", "ran", "dog", "bark", "mat", "zebra"];

#[test]
fn a_new_model_is_empty() {
    let model = Model::new(10);
    assert_eq!(model.size(), 0);
    assert_eq!(model.document_frequency("cat"), 0);
    assert!(model.get("a.txt").is_none());
}

#[test]
fn added_documents_are_counted_once_for_each_term() {
    let mut model = Model::new(2);
    model.add_document("a.txt", "the cat sat, the cat");
    model.add_document("b.txt", "the cat ran");
    assert_eq!(model.size(), 2);
    assert_eq!(model.document_frequency("the"), 2);
    assert_eq!(model.document_frequency("cat"), 2);
    assert_eq!(model.document_frequency("sat"), 1);
    assert_eq!(model.document_frequency("ran"), 1);
    assert_eq!(model.document_frequency("dog"), 0);
    check_counts(&model, &WORDS);
}

#[test]
fn documents_keep_the_order_in_which_their_paths_came() {
    let mut model = Model::new(3);
    model.add_document("b.txt", "one");
    model.add_document("a.txt", "two");
    model.add_document("c.txt", "three");
    model.add_document("a.txt", "four");
    assert_eq!(model.size(), 3);
    assert_eq!(model.path_at(0), "b.txt");
    assert_eq!(model.path_at(1), "a.txt");
    assert_eq!(model.path_at(2), "c.txt");
    assert_eq!(model.doc_at(1).frequency("four"), 1);
    assert_eq!(model.doc_at(1).frequency("two"), 0);
}

#[test]
fn a_document_is_found_under_its_path() {
    let mut model = Model::new(2);
    model.add_document("a.txt", "the cat sat");
    model.add_document("b.txt", "a dog");
    let doc = model.get("a.txt").unwrap();
    assert_eq!(doc.total_terms(), 3);
    assert_eq!(doc.frequency("cat"), 1);
    assert_eq!(model.get("b.txt").unwrap().total_terms(), 2);
    assert!(model.get("c.txt").is_none());
    assert!(model.get("").is_none());
}

#[test]
fn indexing_a_path_again_replaces_its_document() {
    let mut model = Model::new(2);
    model.add_document("a.txt", "the cat sat");
    model.add_document("b.txt", "the cat ran");
    let before = model.size();
    model.add_document("a.txt", "a dog barks at the mat");
    assert_eq!(model.size(), before);
    assert_eq!(model.document_frequency("sat"), 0);
    assert_eq!(model.document_frequency("cat"), 1);
    assert_eq!(model.document_frequency("the"), 2);
    assert_eq!(model.document_frequency("dog"), 1);
    assert_eq!(model.document_frequency("mat"), 1);
    check_counts(&model, &WORDS);
    model.add_document("a.txt", "zebra");
    assert_eq!(model.size(), before);
    assert_eq!(model.document_frequency("dog"), 0);
    assert_eq!(model.document_frequency("mat"), 0);
    assert_eq!(model.document_frequency("the"), 1);
    assert_eq!(model.document_frequency("zebra"), 1);
    check_counts(&model, &WORDS);
}

#[test]
fn indexing_twice_is_as_indexing_the_second_text_alone() {
    let mut twice = Model::new(1);
    twice.add_document("a.txt", "the cat sat on the mat");
    twice.add_document("a.txt", "a dog ran");
    let mut once = Model::new(1);
    once.add_document("a.txt", "a dog ran");
    assert_eq!(twice.size(), once.size());
    for term in WORDS.iter().chain(["a", "on"].iter()) {
        assert_eq!(twice.document_frequency(term), once.document_frequency(term), "term {}", term);
    }
}

#[test]
fn replacing_with_the_same_text_changes_no_count() {
    let mut model = Model::new(2);
    model.add_document("a.txt", "the cat sat");
    model.add_document("b.txt", "the cat ran");
    model.add_document("b.txt", "the cat ran");
    assert_eq!(model.size(), 2);
    assert_eq!(model.document_frequency("the"), 2);
    assert_eq!(model.document_frequency("ran"), 1);
    check_counts(&model, &WORDS);
}

#[test]
fn a_text_without_terms_is_a_document_all_the_same() {
    let mut model = Model::new(2);
    model.add_document("empty.txt", "");
    model.add_document("dots.txt", "... ,,, ;;;");
    assert_eq!(model.size(), 2);
    assert_eq!(model.doc_at(0).total_terms(), 0);
    assert_eq!(model.doc_at(1).total_terms(), 0);
    assert_eq!(model.document_frequency(""), 0);
}

#[test]
fn the_counts_agree_after_every_step_of_a_longer_run() {
    let texts = [
        ("a", "the cat sat"),
        ("b", "the dog ran"),
        ("c", "zebra zebra mat"),
        ("a", "dog dog dog"),
        ("d", ""),
        ("b", "cat"),
        ("c", "the the the"),
        ("d", "bark at the cat, dog"),
        ("a", "the cat sat"),
    ];
    let mut model = Model::new(texts.len());
    for (path, text) in texts.iter() {
        model.add_document(path, text);
        check_counts(&model, &WORDS);
    }
    assert_eq!(model.size(), 4);
}

#[test]
fn a_built_document_can_be_committed() {
    let mut model = Model::new(2);
    let doc = Doc::new("the cat sat");
    model.commit("a.txt", doc);
    model.commit("a.txt", Doc::new("the dog"));
    assert_eq!(model.size(), 1);
    assert_eq!(model.document_frequency("cat"), 0);
    assert_eq!(model.document_frequency("dog"), 1);
    assert_eq!(model.document_frequency("the"), 1);
}

#[test]
fn a_build_indexes_every_pair_in_order() {
    let contents = vec![
        ("a.txt".to_string(), "the cat sat".to_string()),
        ("b.txt".to_string(), "the cat ran".to_string()),
        ("a.txt".to_string(), "the dog".to_string()),
    ];
    let mut model = Model::new(contents.len());
    let signals = model.add_contents(&contents);
    assert_eq!(model.size(), 2);
    assert_eq!(model.document_frequency("cat"), 1);
    assert_eq!(model.document_frequency("dog"), 1);
    assert_eq!(model.document_frequency("the"), 2);
    assert_eq!(signals.last(), Some(&0));
    assert_eq!(signals.iter().filter(|&&s| s == 0).count(), 1);
}

#[test]
fn a_build_of_nothing_only_signals_the_end() {
    let mut model = Model::new(0);
    let signals = model.add_contents(&Vec::new());
    assert_eq!(signals, vec![0]);
    assert_eq!(model.size(), 0);
}

#[test]
fn small_texts_are_built_one_after_the_other() {
    let contents = vec![
        ("a.txt".to_string(), "the cat sat".to_string()),
        ("b.txt".to_string(), "the cat ran".to_string()),
    ];
    assert_eq!(build_mode(&contents), BuildMode::Sequential);
    assert_eq!(build_mode(&Vec::new()), BuildMode::Sequential);
}

#[test]
fn a_big_text_in_the_first_half_asks_for_a_parallel_build() {
    let big = "a".repeat(1024 * 1024 * 1024);
    let just_below = "a".repeat(1024 * 1024 * 1024 - 1);
    let mut contents = vec![
        ("a.txt".to_string(), just_below),
        ("b.txt".to_string(), String::new()),
    ];
    assert_eq!(build_mode(&contents), BuildMode::Sequential);
    contents[0].1 = big;
    assert_eq!(build_mode(&contents), BuildMode::Parallel);
    contents.swap(0, 1);
    assert_eq!(build_mode(&contents), BuildMode::Sequential);
    contents.truncate(1);
    contents.push(("c.txt".to_string(), String::new()));
    contents.swap(0, 1);
    contents.truncate(1);
    assert_eq!(build_mode(&contents), BuildMode::Sequential);
}
