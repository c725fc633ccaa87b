use dnf_helper::choice::{choice_from_trimmed, parse_decimal, select_index};
use dnf_helper::command::{
    install_invocation, remove_invocation, search_url, update_invocation, Request, UsageError,
};
use dnf_helper::page::{block_texts, extract_entries, flatten};
use dnf_helper::session::{Action, Event, Failure, Session};
use dnf_helper::text::{entries_from_texts, parse_block, ExtractError};

fn strings(v: &[&str]) -> Vec<String> {
    v.iter().map(|s| s.to_string()).collect()
}

fn block(name: &str, description: &str) -> String {
    format!(
        "<div class=\"position-relative\">\n\t<div class=\"h5 m-0 new-block\"><a>{}</a> - {}</div>\n\t<span><a>View other packages from {} &raquo;</a></span>\n</div>\n",
        name, description, name
    )
}

fn page(blocks: &[String]) -> String {
    format!(
        "<html><head><title>Search</title></head><body>\n<div class=\"row\">\n\t<div class=\"col-md-4\">filters</div>\n\t<div class=\"col-md-8\">\n{}\t</div>\n</div>\n</body></html>",
        blocks.concat()
    )
}

#[test]
fn block_splits_name_and_description() {
    let e = parse_block("foo - bar baz").unwrap();
    assert_eq!(e.name, "foo");
    assert_eq!(e.description, "bar baz");
}

#[test]
fn block_with_two_separators_keeps_the_middle_part() {
    let e = parse_block("foo - bar - baz").unwrap();
    assert_eq!(e.name, "foo");
    assert_eq!(e.description, "bar");
}

#[test]
fn block_with_separator_at_the_end() {
    let e = parse_block("foo - ").unwrap();
    assert_eq!(e.name, "foo");
    assert_eq!(e.description, "");
}

#[test]
fn block_without_separator_is_refused() {
    assert!(parse_block("foo-bar baz").is_none());
    assert!(parse_block("").is_none());
}

#[test]
fn texts_become_entries_in_order() {
    let v = entries_from_texts(&strings(&["a - one", "b - two", "c - three"])).unwrap();
    let names: Vec<&str> = v.iter().map(|e| e.name.as_str()).collect();
    let descriptions: Vec<&str> = v.iter().map(|e| e.description.as_str()).collect();
    assert_eq!(names, vec!["a", "b", "c"]);
    assert_eq!(descriptions, vec!["one", "two", "three"]);
}

#[test]
fn malformed_text_is_reported_by_position() {
    let r = entries_from_texts(&strings(&["a - one", "broken", "c - three", "also broken"]));
    assert!(matches!(r, Err(ExtractError::MalformedBlock(1))));
}

#[test]
fn flatten_drops_newlines_and_tabs() {
    assert_eq!(flatten("a\n\tb c\t\nd\r"), "ab cd\r");
}

#[test]
fn page_yields_one_entry_per_block_in_document_order() {
    let body = page(&[
        block("vim", "The ubiquitous text editor"),
        block("vim-X11", "The VIM version of the vi editor for the X Window System"),
        block("neovim", "Vim-fork focused on extensibility and agility"),
    ]);
    let v = extract_entries(&body).unwrap();
    assert_eq!(v.len(), 3);
    assert_eq!(v[0].name, "vim");
    assert_eq!(v[0].description, "The ubiquitous text editor");
    assert_eq!(v[1].name, "vim-X11");
    assert_eq!(v[2].name, "neovim");
    assert_eq!(v[2].description, "Vim-fork focused on extensibility and agility");
}

#[test]
fn page_without_container_yields_nothing() {
    let body = "<html><body><div class=\"row\"><div class=\"col-md-4\"><div class=\"position-relative\"><div class=\"new-block\"><a>x</a> - y</div></div></div></div></body></html>";
    assert_eq!(extract_entries(body).unwrap().len(), 0);
    assert_eq!(block_texts(body).unwrap().len(), 0);
}

#[test]
fn page_block_without_separator_is_an_error() {
    let body = page(&[
        block("vim", "editor"),
        "<div class=\"position-relative\"><div class=\"new-block\">nothing here</div></div>".to_string(),
    ]);
    assert!(matches!(extract_entries(&body), Err(ExtractError::MalformedBlock(1))));
}

#[test]
fn choice_one_of_three_is_the_first_entry() {
    assert_eq!(select_index("1", 3), Some(0));
    assert_eq!(select_index("1\n", 3), Some(0));
    assert_eq!(select_index("3", 3), Some(2));
}

#[test]
fn choice_out_of_range_or_not_a_number_asks_again() {
    assert_eq!(select_index("0", 3), None);
    assert_eq!(select_index("4", 3), None);
    assert_eq!(select_index("abc", 3), None);
    assert_eq!(select_index("", 3), None);
    assert_eq!(select_index("\n", 3), None);
    assert_eq!(select_index("-1", 3), None);
}

#[test]
fn choice_ignores_surrounding_whitespace() {
    assert_eq!(select_index("  2 \r\n", 3), Some(1));
    assert_eq!(choice_from_trimmed(" 2", 3), None);
    assert_eq!(choice_from_trimmed("+2", 3), Some(1));
}

#[test]
fn decimal_limits() {
    assert_eq!(parse_decimal("18446744073709551615"), Some(usize::MAX));
    assert_eq!(parse_decimal("18446744073709551616"), None);
    assert_eq!(parse_decimal("007"), Some(7));
    assert_eq!(parse_decimal("+"), None);
    assert_eq!(parse_decimal("1 2"), None);
}

#[test]
fn no_arguments_ask_for_an_update() {
    let q = Request::from_args(None, None, None).unwrap();
    assert!(matches!(q, Request::Update));
    let (s, a) = Session::start(q);
    assert!(matches!(s, Session::Running));
    match a {
        Action::Run(inv) => {
            assert_eq!(inv.program, "dnf");
            assert_eq!(inv.args, strings(&["update", "-y"]));
        }
        _ => panic!("expected the package manager to run"),
    }
    let (s, a) = s.step(Event::Exited);
    assert!(matches!(s, Session::Done));
    assert!(matches!(a, Action::Finish));
}

#[test]
fn install_flag_runs_install_once() {
    let q = Request::from_args(None, Some("foo".to_string()), None).unwrap();
    let (s, a) = Session::start(q);
    match a {
        Action::Run(inv) => assert_eq!(inv.args, strings(&["install", "foo", "-y"])),
        _ => panic!("expected the package manager to run"),
    }
    let (s, a) = s.step(Event::Exited);
    assert!(matches!(a, Action::Finish));
    let (_, a) = s.step(Event::Exited);
    assert!(matches!(a, Action::Finish));
}

#[test]
fn remove_flag_runs_install() {
    let q = Request::from_args(None, None, Some("foo".to_string())).unwrap();
    assert!(matches!(q, Request::Remove(ref n) if n == "foo"));
    let (_, a) = Session::start(q);
    match a {
        Action::Run(inv) => assert_eq!(inv.args, strings(&["install", "foo", "-y"])),
        _ => panic!("expected the package manager to run"),
    }
    assert_eq!(remove_invocation("bar").args, strings(&["install", "bar", "-y"]));
}

#[test]
fn search_term_alone_starts_a_search() {
    let q = Request::from_args(Some("vim".to_string()), None, None).unwrap();
    let (s, a) = Session::start(q);
    assert!(matches!(s, Session::Fetching));
    match a {
        Action::Fetch(url) => {
            assert_eq!(url, "https://packages.fedoraproject.org/search?query=vim")
        }
        _ => panic!("expected a fetch"),
    }
}

#[test]
fn two_actions_are_refused() {
    let r = Request::from_args(Some("a".to_string()), Some("b".to_string()), None);
    assert!(matches!(r, Err(UsageError::ConflictingActions)));
    let r = Request::from_args(None, Some("b".to_string()), Some("c".to_string()));
    assert!(matches!(r, Err(UsageError::ConflictingActions)));
}

#[test]
fn invocations_and_command_line() {
    let inv = install_invocation("foo");
    assert_eq!(inv.command_line(), strings(&["sudo", "dnf", "install", "foo", "-y"]));
    assert_eq!(update_invocation().command_line(), strings(&["sudo", "dnf", "update", "-y"]));
}

#[test]
fn search_url_percent_encodes_the_query() {
    assert_eq!(
        search_url("a b&c=d"),
        "https://packages.fedoraproject.org/search?query=a%20b%26c%3Dd"
    );
    assert_eq!(search_url("é"), "https://packages.fedoraproject.org/search?query=%C3%A9");
    assert_eq!(
        search_url("python3-foo_bar.x~"),
        "https://packages.fedoraproject.org/search?query=python3-foo_bar.x~"
    );
}

#[test]
fn network_failure_runs_nothing() {
    let (s, a) = Session::start(Request::Search("vim".to_string()));
    assert!(matches!(a, Action::Fetch(_)));
    let (s, a) = s.step(Event::NetworkError);
    assert!(matches!(a, Action::Fail(Failure::Network)));
    assert!(matches!(s, Session::Done));
    let (s, a) = s.step(Event::Line("1".to_string()));
    assert!(matches!(a, Action::Finish));
    let (_, a) = s.step(Event::Exited);
    assert!(matches!(a, Action::Finish));
}

#[test]
fn search_offers_then_installs_the_choice() {
    let body = page(&[block("vim", "editor"), block("emacs", "another editor"), block("nano", "small")]);
    let (s, _) = Session::start(Request::Search("edit".to_string()));
    let (s, a) = s.step(Event::Page(body));
    match a {
        Action::Offer(v) => assert_eq!(v.len(), 3),
        _ => panic!("expected an offer"),
    }
    let (s, a) = s.step(Event::Line("4\n".to_string()));
    assert!(matches!(a, Action::Prompt));
    let (s, a) = s.step(Event::Line("abc\n".to_string()));
    assert!(matches!(a, Action::Prompt));
    let (s, a) = s.step(Event::Line("2\n".to_string()));
    match a {
        Action::Run(inv) => assert_eq!(inv.args, strings(&["install", "emacs", "-y"])),
        _ => panic!("expected the package manager to run"),
    }
    let (s, a) = s.step(Event::SpawnError);
    assert!(matches!(a, Action::Fail(Failure::Spawn)));
    assert!(matches!(s, Session::Done));
}

#[test]
fn empty_result_page_finishes() {
    let (s, _) = Session::start(Request::Search("zzz".to_string()));
    let (s, a) = s.step(Event::Page(page(&[])));
    assert!(matches!(a, Action::Finish));
    assert!(matches!(s, Session::Done));
}

#[test]
fn malformed_result_page_fails() {
    let body = page(&["<div class=\"position-relative\"><div class=\"new-block\">x</div></div>".to_string()]);
    let (s, _) = Session::start(Request::Search("x".to_string()));
    let (_, a) = s.step(Event::Page(body));
    assert!(matches!(a, Action::Fail(Failure::Extraction(ExtractError::MalformedBlock(0)))));
}

#[test]
fn event_out_of_order_fails() {
    let (s, _) = Session::start(Request::Update);
    let (_, a) = s.step(Event::Line("1".to_string()));
    assert!(matches!(a, Action::Fail(Failure::OutOfOrder)));
}

#[test]
fn page_without_results_finishes_without_offer() {
    let (s, _) = Session::start(Request::Search("x".to_string()));
    let body = "<html><body><p>No results</p></body></html>".to_string();
    let (s, a) = s.step(Event::Page(body));
    assert!(matches!(a, Action::Finish));
    assert!(matches!(s, Session::Done));
}

#[test]
fn choice_trims_unicode_white_space() {
    assert_eq!(select_index("\u{3000}2\u{a0}\n", 3), Some(1));
}
