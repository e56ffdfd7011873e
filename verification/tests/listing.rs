use dir_browser::app::App;
use dir_browser::listing::{partition, DirEntry, Scan};
use dir_browser::order::le;
use dir_browser::sort::sort_names;

fn dir(name: &str) -> DirEntry {
    DirEntry { name: name.to_string(), is_dir: true }
}

fn file(name: &str) -> DirEntry {
    DirEntry { name: name.to_string(), is_dir: false }
}

fn listed(entries: Vec<DirEntry>) -> App {
    let mut app = App::default();
    app.start();
    app.generate_filetree(&Scan::Entries(entries));
    app
}

#[test]
fn directories_and_files_are_sorted_apart() {
    let app = listed(vec![dir("b"), dir("a"), file("z.txt"), file("y.txt")]);
    assert_eq!(app.tree_dirs(), &vec!["a".to_string(), "b".to_string()]);
    assert_eq!(app.tree_files(), &vec!["y.txt".to_string(), "z.txt".to_string()]);
}

#[test]
fn an_empty_directory_gives_empty_lists() {
    let app = listed(vec![]);
    assert!(app.tree_dirs().is_empty());
    assert!(app.tree_files().is_empty());
}

#[test]
fn a_path_that_is_no_directory_gives_empty_lists() {
    let mut app = App::default();
    app.start();
    app.generate_filetree(&Scan::NotADirectory);
    assert!(app.tree_dirs().is_empty());
    assert!(app.tree_files().is_empty());
    assert_eq!(app.path(), ".");
    assert!(!app.should_exit());
}

#[test]
fn a_path_that_is_no_directory_changes_nothing() {
    let mut app = listed(vec![dir("src"), file("Cargo.toml")]);
    app.generate_filetree(&Scan::NotADirectory);
    assert_eq!(app.tree_dirs(), &vec!["src".to_string()]);
    assert_eq!(app.tree_files(), &vec!["Cargo.toml".to_string()]);
}

#[test]
fn start_sets_the_root_path_and_clears_the_lists() {
    let mut app = listed(vec![dir("src"), file("Cargo.toml")]);
    app.exit();
    app.start();
    assert_eq!(app.path(), ".");
    assert!(app.tree_dirs().is_empty());
    assert!(app.tree_files().is_empty());
    assert!(app.should_exit());
}

#[test]
fn a_new_viewer_runs_and_holds_nothing() {
    let app = App::default();
    assert_eq!(app.path(), "");
    assert!(app.tree_dirs().is_empty());
    assert!(app.tree_files().is_empty());
    assert!(!app.should_exit());
}

#[test]
fn no_name_stands_in_both_lists() {
    let app = listed(vec![file("notes"), dir("target"), file("a"), dir("src"), file("b"), dir(".git")]);
    assert_eq!(app.tree_dirs(), &vec![".git".to_string(), "src".to_string(), "target".to_string()]);
    assert_eq!(app.tree_files(), &vec!["a".to_string(), "b".to_string(), "notes".to_string()]);
    for d in app.tree_dirs() {
        assert!(!app.tree_files().contains(d));
    }
}

#[test]
fn a_second_listing_joins_the_first() {
    let mut app = listed(vec![dir("m"), file("n")]);
    app.generate_filetree(&Scan::Entries(vec![dir("a"), dir("z"), file("b")]));
    assert_eq!(app.tree_dirs(), &vec!["a".to_string(), "m".to_string(), "z".to_string()]);
    assert_eq!(app.tree_files(), &vec!["b".to_string(), "n".to_string()]);
}

#[test]
fn partition_keeps_the_order_of_the_entries() {
    let mut dirs = vec!["first".to_string()];
    let mut files = Vec::new();
    partition(&vec![file("c"), dir("b"), file("a"), dir("a")], &mut dirs, &mut files);
    assert_eq!(dirs, vec!["first".to_string(), "b".to_string(), "a".to_string()]);
    assert_eq!(files, vec!["c".to_string(), "a".to_string()]);
}

#[test]
fn names_compare_by_code_point() {
    assert!(le("", ""));
    assert!(le("", "a"));
    assert!(!le("a", ""));
    assert!(le("a", "a"));
    assert!(le("a", "ab"));
    assert!(!le("ab", "a"));
    assert!(le("B", "a"));
    assert!(!le("a", "B"));
    assert!(le("a10", "a9"));
    assert!(le("z", "é"));
    assert!(le("é", "日本"));
    assert!(le("\u{ffff}", "\u{10000}"));
    assert!(!le("\u{10000}", "\u{ffff}"));
}

#[test]
fn names_compare_as_strings_do() {
    let names = ["", "a", "A", "ab", "abc", "b", "é", "e", "日本", "日", "\u{10000}", "\u{ffff}", "~", " ", "a b", "a\nb"];
    for x in names {
        for y in names {
            assert_eq!(le(x, y), x <= y, "{:?} and {:?}", x, y);
        }
    }
}

#[test]
fn sorting_keeps_names_that_occur_twice() {
    let mut names = vec!["b".to_string(), "a".to_string(), "b".to_string(), "a".to_string(), "c".to_string()];
    sort_names(&mut names);
    assert_eq!(names, vec!["a", "a", "b", "b", "c"]);
}

#[test]
fn sorting_short_lists() {
    let mut none: Vec<String> = Vec::new();
    sort_names(&mut none);
    assert!(none.is_empty());
    let mut one = vec!["x".to_string()];
    sort_names(&mut one);
    assert_eq!(one, vec!["x"]);
    let mut two = vec!["y".to_string(), "x".to_string()];
    sort_names(&mut two);
    assert_eq!(two, vec!["x", "y"]);
    let mut three = vec!["y".to_string(), "z".to_string(), "x".to_string()];
    sort_names(&mut three);
    assert_eq!(three, vec!["x", "y", "z"]);
}

#[test]
fn sorting_agrees_with_the_order_of_strings() {
    let alphabet: Vec<char> = "abAB01._-é日\u{10348} ".chars().collect();
    let mut state: u64 = 12345;
    for len in 0..200usize {
        let mut names: Vec<String> = Vec::new();
        for _ in 0..len {
            state = state.wrapping_mul(6364136223846793005).wrapping_add(1442695040888963407);
            let mut name = String::new();
            let mut bits = state >> 16;
            let chars = 1 + (bits % 6);
            bits /= 6;
            for _ in 0..chars {
                name.push(alphabet[(bits % alphabet.len() as u64) as usize]);
                bits /= alphabet.len() as u64;
            }
            names.push(name);
        }
        let mut expected = names.clone();
        expected.sort();
        sort_names(&mut names);
        assert_eq!(names, expected);
    }
}
