use dir_browser::app::App;
use dir_browser::event::{Event, KeyCode, KeyEvent, KeyEventKind};
use dir_browser::listing::{DirEntry, Scan};

fn press(code: KeyCode) -> KeyEvent {
    KeyEvent { code, kind: KeyEventKind::Press }
}

fn running() -> App {
    let mut app = App::default();
    app.start();
    app.generate_filetree(&Scan::Entries(vec![
        DirEntry { name: "src".to_string(), is_dir: true },
        DirEntry { name: "Cargo.toml".to_string(), is_dir: false },
    ]));
    app
}

fn unchanged_but_for_exit(app: &App) {
    assert_eq!(app.path(), ".");
    assert_eq!(app.tree_dirs(), &vec!["src".to_string()]);
    assert_eq!(app.tree_files(), &vec!["Cargo.toml".to_string()]);
}

#[test]
fn the_four_keys_end_the_viewer() {
    for code in [KeyCode::Up, KeyCode::Down, KeyCode::Enter, KeyCode::Char('q')] {
        let mut app = running();
        assert!(!app.should_exit());
        app.handle_events(Event::Key(press(code)));
        assert!(app.should_exit(), "{:?}", code);
        unchanged_but_for_exit(&app);
    }
}

#[test]
fn any_other_key_leaves_the_viewer_running() {
    for code in [KeyCode::Char('x'), KeyCode::Char('Q'), KeyCode::Char(' '), KeyCode::Other] {
        let mut app = running();
        app.handle_events(Event::Key(press(code)));
        assert!(!app.should_exit(), "{:?}", code);
        unchanged_but_for_exit(&app);
    }
}

#[test]
fn only_a_press_counts() {
    for kind in [KeyEventKind::Release, KeyEventKind::Repeat] {
        for code in [KeyCode::Up, KeyCode::Down, KeyCode::Enter, KeyCode::Char('q')] {
            let mut app = running();
            app.handle_events(Event::Key(KeyEvent { code, kind }));
            assert!(!app.should_exit(), "{:?} {:?}", code, kind);
        }
    }
}

#[test]
fn an_event_that_is_no_key_changes_nothing() {
    let mut app = running();
    app.handle_events(Event::Other);
    assert!(!app.should_exit());
    unchanged_but_for_exit(&app);
}

#[test]
fn a_key_event_is_judged_by_its_key_alone() {
    let mut app = running();
    app.handle_key_event(KeyEvent { code: KeyCode::Char('q'), kind: KeyEventKind::Release });
    assert!(app.should_exit());
    let mut app = running();
    app.handle_key_event(press(KeyCode::Char('x')));
    assert!(!app.should_exit());
}

#[test]
fn the_viewer_stays_ended() {
    let mut app = running();
    app.exit();
    assert!(app.should_exit());
    app.handle_events(Event::Key(press(KeyCode::Char('x'))));
    app.handle_events(Event::Other);
    assert!(app.should_exit());
    app.exit();
    assert!(app.should_exit());
    unchanged_but_for_exit(&app);
}
