use std::path::PathBuf;
use terki_panes::input::{Event, ExCall, ExEventStatus, Key, Plan};
use terki_panes::screen::{Screen, TermOp};
use terki_panes::terki::{Error, Location, PageRequest, Store, Terki};

fn lines(texts: &[&str]) -> Vec<String> {
    texts.iter().map(|text| text.to_string()).collect()
}

fn request(wiki: &str, slug: &str, location: Location) -> PageRequest {
    PageRequest { wiki: wiki.to_string(), slug: slug.to_string(), location }
}

fn show(terki: &mut Terki, slug: &str, page: &[&str], location: Location) -> Vec<TermOp> {
    assert!(terki.can_show(page.len()));
    let mut out = Screen::new();
    terki.display("localhost", slug, lines(page), location, &mut out).unwrap();
    out.into_ops()
}

fn reader(slugs: &[&str]) -> Terki {
    let mut terki = Terki::new((20, 5));
    terki.add_local(PathBuf::from("/home/me/.wiki"), true, Some(".wiki")).unwrap();
    for slug in slugs {
        show(&mut terki, slug, &["[[First Link]] x", "y"], Location::End);
    }
    terki
}

fn slugs(terki: &Terki) -> Vec<String> {
    terki.panes().iter().map(|pane| pane.slug().to_string()).collect()
}

fn idle() -> Plan {
    Plan { page: None, ex: ExCall::Nothing, redraw: false, quit: false }
}

fn input(terki: &mut Terki, event: Event, handled: ExEventStatus, active: bool) -> (Plan, Vec<TermOp>) {
    assert!(terki.accepts(event, &handled, active));
    let mut out = Screen::new();
    let plan = terki.handle_input(event, handled, active, &mut out).unwrap();
    (plan, out.into_ops())
}

fn press(terki: &mut Terki, key: Key) -> (Plan, Vec<TermOp>) {
    input(terki, Event::Key(key), ExEventStatus::Ignored, false)
}

#[test]
fn new_reader_is_empty() {
    let terki = Terki::new((80, 24));
    assert_eq!(terki.size(), (80, 24));
    assert_eq!(terki.panes().len(), 0);
    assert_eq!(terki.active_pane(), 0);
    assert!(terki.store("localhost").is_none());
    assert!(!terki.can_redraw());
}

#[test]
fn local_wiki_takes_the_name_of_its_directory() {
    let mut terki = Terki::new((20, 5));
    let name = terki.add_local(PathBuf::from("/w/notes"), true, Some("notes"));
    assert_eq!(name, Some("notes".to_string()));
    let name = terki.add_local(PathBuf::from("/h/.wiki"), true, Some(".wiki"));
    assert_eq!(name, Some("localhost".to_string()));
    assert_eq!(terki.store_label("notes").unwrap(), "local");
    match terki.store("localhost") {
        Some(Store::Local { path }) => assert_eq!(path, &PathBuf::from("/h/.wiki")),
        _ => panic!("not a local store"),
    }
}

#[test]
fn missing_directory_is_not_added() {
    let mut terki = Terki::new((20, 5));
    assert_eq!(terki.add_local(PathBuf::from("/none"), false, Some("none")), None);
    assert_eq!(terki.add_local(PathBuf::from("/"), true, None), None);
    assert!(terki.store("none").is_none());
}

#[test]
fn remote_wiki_takes_the_name_of_its_host() {
    let mut terki = Terki::new((20, 5));
    let name = terki.add_remote("http://Fed.Wiki.org:3000/view").unwrap();
    assert_eq!(name, "fed.wiki.org");
    assert_eq!(terki.store_label("fed.wiki.org").unwrap(), "remote");
    match terki.store("fed.wiki.org") {
        Some(Store::Http { url }) => assert_eq!(url, "http://Fed.Wiki.org:3000/view"),
        _ => panic!("not a remote store"),
    }
}

#[test]
fn addresses_without_host_are_refused() {
    let mut terki = Terki::new((20, 5));
    assert!(matches!(terki.add_remote("data:text/plain,Stuff"), Err(Error::NoHost)));
    assert!(matches!(
        terki.add_remote("fed.wiki.org"),
        Err(Error::BadUrl(url::ParseError::RelativeUrlWithoutBase))
    ));
    assert!(matches!(terki.add_host("http://a", Ok(None)), Err(Error::NoHost)));
    assert_eq!(terki.add_host("http://a", Ok(Some("a".to_string()))).unwrap(), "a");
}

#[test]
fn unknown_wiki_is_not_displayed() {
    let mut terki = reader(&["a"]);
    let mut out = Screen::new();
    match terki.display("other", "b", lines(&["x"]), Location::Next, &mut out) {
        Err(Error::WikiNotFound(name)) => assert_eq!(name, "other"),
        _ => panic!("displayed"),
    }
    assert_eq!(out.into_ops(), vec![]);
    assert_eq!(slugs(&terki), vec!["a"]);
    assert!(matches!(terki.store_label("other"), Err(Error::WikiNotFound(_))));
}

#[test]
fn pages_go_where_they_are_told() {
    let mut terki = reader(&["a", "b"]);
    assert_eq!((slugs(&terki), terki.active_pane()), (lines(&["a", "b"]), 1));
    press(&mut terki, Key::Left);
    show(&mut terki, "n", &[], Location::Next);
    assert_eq!((slugs(&terki), terki.active_pane()), (lines(&["a", "n", "b"]), 1));
    show(&mut terki, "r", &[], Location::Replace);
    assert_eq!((slugs(&terki), terki.active_pane()), (lines(&["a", "r", "b"]), 1));
    show(&mut terki, "e", &[], Location::End);
    assert_eq!((slugs(&terki), terki.active_pane()), (lines(&["a", "r", "b", "e"]), 3));
}

#[test]
fn first_page_goes_into_the_first_pane_wherever_it_is_told() {
    for location in [Location::Replace, Location::Next, Location::End] {
        let mut terki = reader(&[]);
        let ops = show(&mut terki, "a", &["x"], location);
        assert_eq!((slugs(&terki), terki.active_pane()), (lines(&["a"]), 0));
        assert_eq!(
            ops[2],
            TermOp::Print("\u{1b}[7mlocal: localhost -- a\u{1b}[0m".to_string())
        );
        assert_eq!(ops[6], TermOp::Print("x".to_string()));
    }
}

#[test]
fn reader_opens_with_the_welcome_page() {
    assert_eq!(PageRequest::first("w"), request("w", "welcome-visitors", Location::End));
}

#[test]
fn open_asks_for_a_page_of_the_active_wiki() {
    let mut terki = reader(&["a"]);
    assert_eq!(
        terki.run_command("open some-page").unwrap(),
        Some(request("localhost", "some-page", Location::Next))
    );
    assert_eq!(
        terki.run_command("  open 'some page' ").unwrap(),
        Some(request("localhost", "some page", Location::Next))
    );
    assert_eq!(terki.run_command("open").unwrap(), None);
    assert_eq!(terki.run_command("open a b").unwrap(), None);
    assert_eq!(slugs(&terki), vec!["a"]);
}

#[test]
fn other_commands_do_nothing() {
    let mut terki = reader(&["a", "b"]);
    assert_eq!(terki.run_command("").unwrap(), None);
    assert_eq!(terki.run_command("# close").unwrap(), None);
    assert_eq!(terki.run_command("quit").unwrap(), None);
    assert_eq!(slugs(&terki), vec!["a", "b"]);
}

#[test]
fn open_quote_is_an_error() {
    let mut terki = reader(&["a", "b"]);
    assert!(matches!(terki.run_command("close 'x"), Err(Error::BadCommand(_))));
    assert_eq!(slugs(&terki), vec!["a", "b"]);
}

#[test]
fn close_keeps_the_last_pane() {
    let mut terki = reader(&["a", "b", "c"]);
    press(&mut terki, Key::Left);
    assert_eq!(terki.run_words(&lines(&["close", "extra"])), None);
    assert_eq!((slugs(&terki), terki.active_pane()), (lines(&["a", "c"]), 1));
    assert_eq!(terki.run_command("close").unwrap(), None);
    assert_eq!((slugs(&terki), terki.active_pane()), (lines(&["a"]), 0));
    assert_eq!(terki.run_command("close").unwrap(), None);
    assert_eq!((slugs(&terki), terki.active_pane()), (lines(&["a"]), 0));
}

#[test]
fn close_undoes_open() {
    let mut terki = reader(&["a", "b"]);
    show(&mut terki, "n", &["x"], Location::Next);
    terki.run_command("close").unwrap();
    assert_eq!((slugs(&terki), terki.active_pane()), (lines(&["a", "b"]), 1));
    press(&mut terki, Key::Left);
    show(&mut terki, "n", &["x"], Location::Next);
    terki.run_command("close").unwrap();
    assert_eq!((slugs(&terki), terki.active_pane()), (lines(&["a", "b"]), 1));
}

#[test]
fn arrows_turn_and_scroll() {
    let mut terki = reader(&["a", "b"]);
    let (plan, ops) = press(&mut terki, Key::Right);
    assert_eq!((plan, ops, terki.active_pane()), (idle(), vec![], 1));
    let (plan, ops) = press(&mut terki, Key::Left);
    assert_eq!((plan, terki.active_pane()), (idle(), 0));
    let mut out = Screen::new();
    terki.redraw(&mut out);
    assert_eq!(ops, out.into_ops());
    let (_, ops) = press(&mut terki, Key::Left);
    assert_eq!((ops, terki.active_pane()), (vec![], 0));
    press(&mut terki, Key::Right);
    assert_eq!(terki.active_pane(), 1);
    show(&mut terki, "long", &["1", "2", "3", "4"], Location::End);
    let (plan, ops) = press(&mut terki, Key::Down);
    assert_eq!(plan, idle());
    assert_eq!(ops[0], TermOp::ScrollUp(1));
    assert_eq!(terki.active().scroll_index(), 1);
    let (plan, ops) = press(&mut terki, Key::Up);
    assert_eq!(plan, idle());
    assert_eq!(ops[0], TermOp::ScrollDown(1));
    assert_eq!(terki.active().scroll_index(), 0);
}

#[test]
fn letters_have_their_meanings() {
    let mut terki = reader(&["a", "b"]);
    let (plan, _) = press(&mut terki, Key::Char('o'));
    assert_eq!(plan.ex, ExCall::Prompt { row: 4, text: "open".to_string() });
    let (plan, _) = press(&mut terki, Key::Char(':'));
    assert_eq!(plan.ex, ExCall::Press { row: 4 });
    let (plan, ops) = press(&mut terki, Key::Char('e'));
    assert_eq!((plan, ops), (idle(), vec![]));
    let (plan, ops) = press(&mut terki, Key::Char('n'));
    assert!(plan.redraw && !plan.quit);
    assert_eq!(ops[2], TermOp::Print("first".to_string()));
    assert_eq!(terki.active().current_highlight().unwrap().index, 0);
    let (plan, _) = press(&mut terki, Key::Char('x'));
    assert!(plan.redraw && !plan.quit);
    assert_eq!((slugs(&terki), terki.active_pane()), (lines(&["a"]), 0));
}

#[test]
fn keys_without_meaning_end_the_reader() {
    let mut terki = reader(&["a"]);
    for key in [Key::Char('q'), Key::Char('X'), Key::Other] {
        let (plan, ops) = press(&mut terki, key);
        assert!(plan.quit);
        assert_eq!(ops, vec![]);
    }
}

#[test]
fn click_on_a_link_asks_for_its_page() {
    let mut terki = reader(&["a"]);
    let click = Event::MouseDown { x: 4, y: 1 };
    let (plan, ops) = input(&mut terki, click, ExEventStatus::Ignored, false);
    assert_eq!(plan.page, Some(request("localhost", "first-link", Location::Next)));
    assert_eq!(ops, vec![]);
    let click = Event::MouseDown { x: 0, y: 2 };
    let (plan, _) = input(&mut terki, click, ExEventStatus::Ignored, false);
    assert_eq!(plan, idle());
}

#[test]
fn click_on_a_link_with_a_quote_is_an_error() {
    let mut terki = reader(&["a"]);
    show(&mut terki, "b", &["[[Don't]]"], Location::End);
    let click = Event::MouseDown { x: 3, y: 1 };
    assert!(terki.accepts(click, &ExEventStatus::Ignored, false));
    let result = terki.handle_input(click, ExEventStatus::Ignored, false, &mut Screen::new());
    assert!(matches!(result, Err(Error::BadCommand(_))));
}

#[test]
fn clicks_outside_the_page_are_not_accepted() {
    let terki = reader(&["a"]);
    let ignored = ExEventStatus::Ignored;
    assert!(!terki.accepts(Event::MouseDown { x: 0, y: 0 }, &ignored, false));
    assert!(!terki.accepts(Event::MouseDown { x: 0, y: 3 }, &ignored, false));
    assert!(!terki.accepts(Event::MouseDown { x: 17, y: 1 }, &ignored, false));
    assert!(terki.accepts(Event::Other, &ignored, false));
}

#[test]
fn command_line_comes_before_the_keys() {
    let mut terki = reader(&["a", "b"]);
    let key = Event::Key(Key::Char('x'));
    let (plan, ops) = input(&mut terki, key, ExEventStatus::Handled, true);
    assert_eq!(plan, Plan { page: None, ex: ExCall::Show { row: 4 }, redraw: false, quit: false });
    assert_eq!(ops, vec![]);
    assert_eq!(slugs(&terki), vec!["a", "b"]);
    let run = ExEventStatus::Run("open c".to_string());
    let (plan, _) = input(&mut terki, key, run, false);
    assert_eq!(
        plan,
        Plan {
            page: Some(request("localhost", "c", Location::Next)),
            ex: ExCall::Show { row: 4 },
            redraw: true,
            quit: false,
        }
    );
    let run = ExEventStatus::Run("close".to_string());
    input(&mut terki, key, run, false);
    assert_eq!(slugs(&terki), vec!["a"]);
}

#[test]
fn other_events_do_nothing() {
    let mut terki = reader(&["a"]);
    let (plan, ops) = input(&mut terki, Event::Other, ExEventStatus::Ignored, false);
    assert_eq!((plan, ops), (idle(), vec![]));
}

#[test]
fn commands_without_a_pane() {
    let mut terki = Terki::new((80, 24));
    assert!(matches!(terki.run_command("open 'abc"), Err(Error::BadCommand(_))));
    assert!(matches!(terki.run_command("open abc"), Err(Error::NoPane)));
    assert_eq!(terki.run_command("open").unwrap(), None);
    assert_eq!(terki.run_command("open a b").unwrap(), None);
    assert_eq!(terki.run_command("close").unwrap(), None);
    assert_eq!((terki.panes().len(), terki.active_pane()), (0, 0));
}

#[test]
fn events_without_a_pane() {
    let mut terki = Terki::new((80, 24));
    let ignored = ExEventStatus::Ignored;
    for key in [Key::Up, Key::Down, Key::Right, Key::Char('x'), Key::Char('n')] {
        assert!(!terki.accepts(Event::Key(key), &ignored, false));
    }
    assert!(!terki.accepts(Event::MouseDown { x: 0, y: 1 }, &ignored, false));
    assert!(!terki.accepts(Event::Key(Key::Other), &ExEventStatus::Handled, false));
    assert_eq!(press(&mut terki, Key::Left), (idle(), vec![]));
    assert_eq!(press(&mut terki, Key::Char('e')), (idle(), vec![]));
    let (plan, _) = press(&mut terki, Key::Char('o'));
    assert_eq!(plan.ex, ExCall::Prompt { row: 23, text: "open".to_string() });
    assert!(press(&mut terki, Key::Other).0.quit);
    let key = Event::Key(Key::Char('a'));
    let (plan, _) = input(&mut terki, key, ExEventStatus::Handled, true);
    assert_eq!(plan, Plan { page: None, ex: ExCall::Show { row: 23 }, redraw: false, quit: false });
    let run = ExEventStatus::Run("close 'x".to_string());
    assert!(terki.accepts(key, &run, false));
    let result = terki.handle_input(key, run, false, &mut Screen::new());
    assert!(matches!(result, Err(Error::BadCommand(_))));
}
