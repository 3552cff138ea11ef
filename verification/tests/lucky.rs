use tubecast::lucky::{
    first_page_step, fresh_indices, history_or_empty, history_text, load_history, lucky_filter, lucky_step, page_from_steps, pick,
    pool, push_history, random_index, random_word, remember, sort_for_roll, usable_word,
    usable_words, weighted_sort, LuckyStep, DEEPEST_PAGE, LUCKY_HISTORY_SIZE, LUCKY_LIMIT, NO_WORDS,
};
use tubecast::search::{SearchResult, Sort};

fn results(ids: &[&str]) -> Vec<SearchResult> {
    ids.iter()
        .map(|id| SearchResult {
            video_id: id.to_string(),
            title: "".into(),
            author: "".into(),
            length: "".into(),
            views: "".into(),
            published: "".into(),
            is_live: false,
        })
        .collect()
}

fn texts(v: &[&str]) -> Vec<String> {
    v.iter().map(|s| s.to_string()).collect()
}

#[test]
fn random_index_single() {
    assert_eq!(random_index(1), 0);
}

#[test]
fn random_index_always_in_bounds() {
    for len in (1usize..10_000).step_by(7) {
        assert!(random_index(len) < len);
    }
}

#[test]
fn random_index_reaches_every_position() {
    let mut seen = [false; 4];
    for _ in 0..1000 {
        seen[random_index(4)] = true;
    }
    assert_eq!(seen, [true; 4]);
}

#[test]
fn sort_weights() {
    let of = |s: Sort| (0..10).filter(|r| sort_for_roll(*r) == s).count();
    assert_eq!(
        (of(Sort::Relevance), of(Sort::Date), of(Sort::Views), of(Sort::Rating)),
        (1, 3, 3, 3)
    );
    for _ in 0..50 {
        assert!(["relevance", "upload_date", "view_count", "rating"].contains(&weighted_sort()));
    }
}

#[test]
fn pages_reach_down_to_the_deepest() {
    assert_eq!(page_from_steps(0), 1);
    assert_eq!(page_from_steps(48), 49);
    assert_eq!(page_from_steps(49), DEEPEST_PAGE);
    assert_eq!(page_from_steps(1000), 50);
    assert_eq!(page_from_steps(usize::MAX), 50);
    assert_eq!(LUCKY_LIMIT, 20);
}

#[test]
fn fresh_videos_are_preferred() {
    let r = results(&["a", "b", "c"]);
    assert_eq!(fresh_indices(&r, &texts(&["b"])), vec![0, 2]);
    assert_eq!(pool(&r, &texts(&["b", "a"])), vec![2]);
    assert_eq!(pool(&r, &texts(&["c", "b", "a"])), vec![0, 1, 2]);
    for _ in 0..50 {
        assert_ne!(pick(&r, &texts(&["b"])), 1);
    }
    assert_eq!(pick(&results(&["x"]), &texts(&["x"])), 0);
}

#[test]
fn lucky_steps() {
    let none = results(&[]);
    let some = results(&["a"]);
    let fresh = Vec::new();
    let stale = texts(&["a"]);
    assert!(matches!(lucky_step(0, 2, &none, &fresh), LuckyStep::TryAgain(1)));
    assert!(matches!(lucky_step(0, 1, &none, &fresh), LuckyStep::FirstPage));
    assert!(matches!(lucky_step(2, 2, &none, &fresh), LuckyStep::FirstPage));
    assert!(matches!(lucky_step(1, 2, &some, &stale), LuckyStep::TryAgain(2)));
    assert!(matches!(lucky_step(2, 2, &some, &stale), LuckyStep::Cast(0)));
    assert!(matches!(lucky_step(0, 2, &some, &fresh), LuckyStep::Cast(0)));
    assert!(matches!(first_page_step(&some, &stale), LuckyStep::Cast(0)));
    assert!(matches!(first_page_step(&none, &fresh), LuckyStep::Nothing));
}

#[test]
fn history_moves_a_video_to_its_end() {
    assert_eq!(remember(&texts(&["a", "b", "a", "c"]), "a"), vec!["b", "c", "a"]);
    assert_eq!(remember(&Vec::new(), "x"), vec!["x"]);
}

#[test]
fn history_drops_the_oldest() {
    let full: Vec<String> = (0..LUCKY_HISTORY_SIZE).map(|i| format!("v{i}")).collect();
    let after = remember(&full, "new");
    assert_eq!(after.len(), 100);
    assert_eq!((after[0].as_str(), after[99].as_str()), ("v1", "new"));
    let again = remember(&full, "v5");
    assert_eq!((again.len(), again[0].as_str(), again[99].as_str()), (100, "v0", "v5"));
    let long: Vec<String> = (0..300).map(|i| format!("v{i}")).collect();
    assert_eq!(remember(&long, "new")[0], "v201");
}

#[test]
fn history_is_stored_as_json() {
    let h = texts(&["a", "q\"\\\n\u{1}é"]);
    let text = history_text(&h);
    assert_eq!(text, "[\"a\",\"q\\\"\\\\\\n\\u0001é\"]");
    assert_eq!(load_history(Some(&text)), h);
    assert_eq!(load_history(None), Vec::<String>::new());
    assert_eq!(load_history(Some("not json")), Vec::<String>::new());
    assert_eq!(load_history(Some("[1]")), Vec::<String>::new());
    assert_eq!(history_or_empty(Some(texts(&["x"]))), vec!["x"]);
}

#[test]
fn history_is_pushed_through_its_text() {
    let one = push_history(None, "a");
    let two = push_history(Some(&one), "b");
    assert_eq!(push_history(Some(&two), "a"), "[\"b\",\"a\"]");
    assert_eq!(push_history(Some("broken"), "z"), "[\"z\"]");
}

#[test]
fn words_of_a_dictionary() {
    assert_eq!(usable_word("  Apple\n"), Some("apple".into()));
    assert_eq!(usable_word("cat"), None);
    assert_eq!(usable_word("it's"), None);
    assert_eq!(usable_word("Ärger"), None);
    let lines = texts(&["cat", "Word", "no-no", "other"]);
    assert_eq!(usable_words(&lines), vec!["word", "other"]);
    let w = random_word(&lines).unwrap();
    assert!(w == "word" || w == "other");
    assert_eq!(random_word(&texts(&["x"])), None);
    assert_eq!(NO_WORDS, "no usable words in /usr/share/dict/words");
}

#[test]
fn filter_keeps_the_order_that_was_asked_for() {
    for _ in 0..20 {
        let f = lucky_filter(true, Some(Sort::Date));
        assert_eq!((f.live, f.sort_by.as_deref()), (true, Some("upload_date")));
        let f = lucky_filter(false, None);
        assert!(!f.live);
        assert!(["relevance", "upload_date", "view_count", "rating"]
            .contains(&f.sort_by.unwrap().as_str()));
    }
}
