use history_search::command::{is_blank, parse_command, Command, CommandError, SearchRequest};
use history_search::format::{format_entry, page_label, paginate};
use history_search::matcher::{Matcher, PredicateKind};
use history_search::message::Message;
use history_search::search::{accumulate, fetch_page, search_history, walk_history};
use history_search::text::{contains, decimal_string, split_terms, truncate_chars};
use history_search::walker::{WalkError, WalkPhase, Walker};

fn msg(id: u64, content: &str) -> Message {
    Message::new(id, format!("user{}", id), "2021-03-04".to_string(), content.to_string())
}

/// A history of the given texts with identifiers 10, 20, ..., then a trigger.
fn history(texts: &[&str]) -> Vec<Message> {
    let mut h: Vec<Message> = Vec::new();
    for (i, t) in texts.iter().enumerate() {
        h.push(msg(10 * (i as u64 + 1), t));
    }
    h.push(msg(10 * (texts.len() as u64 + 1), "/s trigger"));
    h
}

fn contents(v: &[Message]) -> Vec<String> {
    v.iter().map(|m| m.content.clone()).collect()
}

fn run(kind: PredicateKind, arg: &str, texts: &[&str], page: usize) -> Vec<String> {
    let h = history(texts);
    let m = Matcher::new(kind, arg.to_string());
    contents(&search_history(&m, &h, texts.len(), page))
}

#[test]
fn walk_emits_prefix_for_every_page_size() {
    let texts: Vec<String> = (0..37).map(|i| format!("m{}", i)).collect();
    let refs: Vec<&str> = texts.iter().map(|s| s.as_str()).collect();
    let h = history(&refs);
    for k in [0usize, 1, 5, 36, 37] {
        for page in [1usize, 2, 3, 10, 100] {
            let r = walk_history(&h, k, page);
            let want: Vec<String> = texts[..k].to_vec();
            assert_eq!(contents(&r), want);
            let ids: Vec<u64> = r.iter().map(|m| m.id).collect();
            for w in ids.windows(2) {
                assert!(w[0] < w[1]);
            }
        }
    }
}

#[test]
fn allbut_excludes_only_exact_match() {
    assert_eq!(run(PredicateKind::AllBut, "x", &["a", "b", "x", "c"], 100), vec!["a", "b", "c"]);
    assert_eq!(run(PredicateKind::AllBut, "x", &["a", "b", "x", "c"], 1), vec!["a", "b", "c"]);
    assert_eq!(run(PredicateKind::AllBut, "x", &["xx", "x "], 2), vec!["xx", "x "]);
}

#[test]
fn exact_is_substring_match() {
    let texts = ["cats are great", "dogs bark", "a cat sat"];
    assert_eq!(run(PredicateKind::Exact, "cat", &texts, 100), vec!["cats are great", "a cat sat"]);
    assert_eq!(run(PredicateKind::Exact, "Cat", &texts, 100), Vec::<String>::new());
}

#[test]
fn and_needs_every_term() {
    let texts = ["dogs and cats", "dogs only", "cats only"];
    assert_eq!(run(PredicateKind::And, "dogs,cats", &texts, 2), vec!["dogs and cats"]);
}

#[test]
fn or_needs_one_term() {
    let texts = ["dogs and cats", "dogs only", "cats only"];
    assert_eq!(
        run(PredicateKind::Or, "dogs,cats", &texts, 2),
        vec!["dogs and cats", "dogs only", "cats only"]
    );
}

#[test]
fn terms_keep_their_spaces() {
    assert_eq!(split_terms("dogs, cats"), vec!["dogs", " cats"]);
    assert_eq!(split_terms("a,,b,"), vec!["a", "", "b", ""]);
    assert_eq!(split_terms(""), vec![""]);
    let texts = ["dogs and cats", "dogs,cats"];
    assert_eq!(run(PredicateKind::And, "dogs, cats", &texts, 5), vec!["dogs and cats"]);
    assert_eq!(run(PredicateKind::Or, "x, cats", &["cats", "big cats"], 5), vec!["big cats"]);
}

#[test]
fn rerun_gives_same_results() {
    let texts = ["dogs and cats", "dogs only", "cats only", "birds"];
    let first = run(PredicateKind::Or, "dogs,cats", &texts, 1);
    let second = run(PredicateKind::Or, "dogs,cats", &texts, 1);
    let third = run(PredicateKind::Or, "dogs,cats", &texts, 3);
    assert_eq!(first, second);
    assert_eq!(first, third);
}

#[test]
fn fifty_three_results_take_three_pages() {
    let results: Vec<Message> = (0..53).map(|i| msg(i + 1, "hit")).collect();
    let pages = paginate(&results);
    let sizes: Vec<usize> = pages.iter().map(|p| p.entries.len()).collect();
    assert_eq!(sizes, vec![25, 25, 3]);
    let labels: Vec<String> = pages.iter().map(|p| p.label.clone()).collect();
    assert_eq!(labels, vec!["Results 1/3", "Results 2/3", "Results 3/3"]);
    assert_eq!(pages[1].entries[0].heading, "user26 at 2021-03-04:");
}

#[test]
fn single_page_has_plain_label() {
    let results: Vec<Message> = (0..25).map(|i| msg(i + 1, "hit")).collect();
    let pages = paginate(&results);
    assert_eq!(pages.len(), 1);
    assert_eq!(pages[0].label, "Results:");
    assert_eq!(pages[0].entries.len(), 25);
    let results: Vec<Message> = (0..26).map(|i| msg(i + 1, "hit")).collect();
    assert_eq!(paginate(&results).len(), 2);
}

#[test]
fn no_results_take_no_page() {
    assert!(run(PredicateKind::Exact, "cat", &[], 100).is_empty());
    assert!(run(PredicateKind::Exact, "zebra", &["cat", "dog"], 100).is_empty());
    assert_eq!(paginate(&Vec::new()).len(), 0);
}

#[test]
fn missing_argument_is_refused() {
    assert!(matches!(parse_command("/s allbut"), Err(CommandError::MissingArgument)));
    assert!(matches!(parse_command("/s exact "), Err(CommandError::MissingArgument)));
    assert!(matches!(parse_command("/s and"), Err(CommandError::MissingArgument)));
    assert!(matches!(parse_command("/s or"), Err(CommandError::MissingArgument)));
    assert!(matches!(parse_command("/s allbut  "), Err(CommandError::MissingArgument)));
    assert!(matches!(parse_command("/s or  "), Err(CommandError::MissingArgument)));
    assert!(matches!(parse_command("/s exact \t\n\u{a0}"), Err(CommandError::MissingArgument)));
    assert!(is_blank(" \u{3000}"));
    assert!(!is_blank("  x "));
}

#[test]
fn commands_are_parsed() {
    assert!(matches!(parse_command("/s ping"), Ok(Command::Ping)));
    assert!(matches!(parse_command("/s help"), Ok(Command::Help)));
    assert!(matches!(parse_command("hello there"), Ok(Command::Unaddressed)));
    assert!(matches!(parse_command("/search ping"), Ok(Command::Unaddressed)));
    assert!(matches!(parse_command("/s"), Err(CommandError::UnrecognizedCommand)));
    assert!(matches!(parse_command("/s dance now"), Err(CommandError::UnrecognizedCommand)));
    match parse_command("/s allbut Melee HD") {
        Ok(Command::Search(PredicateKind::AllBut, a)) => assert_eq!(a, "Melee HD"),
        _ => panic!("expected an allbut search"),
    }
    match parse_command("/s or dogs, cats") {
        Ok(Command::Search(PredicateKind::Or, a)) => assert_eq!(a, "dogs, cats"),
        _ => panic!("expected an or search"),
    }
    match parse_command("/s exact  cat ") {
        Ok(Command::Search(PredicateKind::Exact, a)) => assert_eq!(a, " cat "),
        _ => panic!("expected an exact search"),
    }
}

#[test]
fn request_builds_its_matcher() {
    let r = SearchRequest::new(7, 99, PredicateKind::And, "a,b".to_string());
    let m = r.matcher();
    assert_eq!(m.terms, vec!["a", "b"]);
    assert!(m.is_match("b then a"));
    assert!(!m.is_match("only a"));
}

#[test]
fn store_double_serves_newest_first() {
    let h = history(&["a", "b", "c", "d"]);
    let p = fetch_page(&h, 40, 2);
    assert_eq!(contents(&p), vec!["c", "b"]);
    let p = fetch_page(&h, 20, 5);
    assert_eq!(contents(&p), vec!["a"]);
    assert!(fetch_page(&h, 10, 5).is_empty());
}

#[test]
fn walker_steps_through_phases() {
    let mut w = Walker::new(100);
    assert_eq!(w.next_fetch(), Some(100));
    assert!(w.next_message().is_none());
    assert_eq!(w.receive_page(vec![msg(90, "n"), msg(80, "m")]), Ok(()));
    assert_eq!(w.next_fetch(), Some(80));
    assert_eq!(w.receive_page(vec![msg(85, "bad")]), Err(WalkError::PageOutOfOrder));
    assert_eq!(w.receive_page(vec![msg(70, "l"), msg(75, "bad")]), Err(WalkError::PageOutOfOrder));
    assert_eq!(w.receive_page(vec![msg(70, "l")]), Ok(()));
    assert_eq!(w.receive_page(vec![]), Ok(()));
    assert_eq!(w.phase(), WalkPhase::Draining);
    assert_eq!(w.receive_page(vec![]), Err(WalkError::NotFetching));
    assert_eq!(w.next_fetch(), None);
    let m = Matcher::new(PredicateKind::AllBut, "m".to_string());
    let r = accumulate(&m, &mut w);
    assert_eq!(contents(&r), vec!["l", "n"]);
    assert_eq!(w.phase(), WalkPhase::Exhausted);
}

#[test]
fn empty_walk_is_exhausted() {
    let mut w = Walker::new(5);
    assert_eq!(w.receive_page(Vec::new()), Ok(()));
    assert_eq!(w.phase(), WalkPhase::Exhausted);
    assert!(w.next_message().is_none());
}

#[test]
fn text_helpers() {
    assert!(contains("a cat sat", "cat"));
    assert!(contains("abc", ""));
    assert!(!contains("ca", "cat"));
    assert!(contains("héllo wörld", "ö"));
    assert_eq!(truncate_chars("héllo", 2), "hé");
    assert_eq!(truncate_chars("hi", 200), "hi");
    assert_eq!(decimal_string(0), "0");
    assert_eq!(decimal_string(1207), "1207");
    assert_eq!(page_label(2, 3), "Results 2/3");
    assert_eq!(page_label(10, 12), "Results 10/12");
}

#[test]
fn entry_is_truncated_to_two_hundred_chars() {
    let long: String = std::iter::repeat('é').take(250).collect();
    let e = format_entry(&msg(3, &long));
    assert_eq!(e.heading, "user3 at 2021-03-04:");
    assert_eq!(e.body.chars().count(), 200);
    let e = format_entry(&msg(4, "short"));
    assert_eq!(e.body, "short");
}
