use node2text::command::{exit_status, render, App, Source};
use node2text::extract::{extract, gather_text, text_of};
use node2text::markup::{document_fits, MAX_DOCUMENT_BYTES};
use node2text::selectors::{invalid_selectors, report, selectors_validator};

fn strings(items: &[&str]) -> Vec<String> {
    items.iter().map(|s| s.to_string()).collect()
}

fn app(selectors: &[&str]) -> App {
    match App::new(strings(selectors), None) {
        Ok(app) => app,
        Err(message) => panic!("{}", message),
    }
}

#[test]
fn id_selector_finds_text() {
    let html = "<div id=\"a\">Hello</div>";
    assert_eq!(extract(html, &strings(&["#a"])), "Hello");
    assert_eq!(app(&["#a"]).run(html), Some("Hello\n".to_string()));
}

#[test]
fn elements_are_concatenated_without_separator() {
    let html = "<p>One</p><p>Two</p>";
    assert_eq!(extract(html, &strings(&["p"])), "OneTwo");
    assert_eq!(app(&["p"]).run(html), Some("OneTwo\n".to_string()));
}

#[test]
fn selector_list_in_one_argument() {
    let html = "<h1>Title</h1><p>Body</p>";
    assert_eq!(app(&["h1,p"]).run(html), Some("TitleBody\n".to_string()));
}

#[test]
fn selectors_apply_in_the_order_given() {
    let html = "<h1>Title</h1><p>Body</p>";
    assert_eq!(app(&["h1", "p"]).run(html), Some("TitleBody\n".to_string()));
    assert_eq!(app(&["p", "h1"]).run(html), Some("BodyTitle\n".to_string()));
}

#[test]
fn nested_text_nodes_come_in_document_order() {
    let html = "<div>a<b>b<i>c</i></b>d</div>";
    assert_eq!(extract(html, &strings(&["div"])), "abcd");
    assert_eq!(extract(html, &strings(&["b", "div"])), "bcabcd");
}

#[test]
fn no_match_gives_no_output() {
    let html = "<div id=\"a\">Hello</div>";
    assert_eq!(extract(html, &strings(&["#b"])), "");
    assert_eq!(app(&["#b"]).run(html), None);
}

#[test]
fn empty_document_gives_no_output() {
    assert_eq!(app(&["p"]).run(""), None);
    assert_eq!(app(&[]).run("<p>x</p>"), None);
}

#[test]
fn whitespace_only_match_gives_no_output() {
    assert_eq!(app(&["p"]).run("<p> \n\t </p>"), None);
}

#[test]
fn only_the_ends_of_the_output_are_trimmed() {
    let html = "<p>  One </p><p> Two  </p>";
    assert_eq!(extract(html, &strings(&["p"])), "  One  Two  ");
    assert_eq!(app(&["p"]).run(html), Some("One  Two\n".to_string()));
}

#[test]
fn extraction_is_repeatable() {
    let html = "<ul><li>a</li><li>b</li></ul><p>c</p>";
    let command = app(&["li", "p,ul"]);
    let first = command.run(html);
    assert_eq!(first, Some("ababc\n".to_string()));
    assert_eq!(command.run(html), first);
}

#[test]
fn unparseable_selector_contributes_nothing() {
    let html = "<p>x</p>";
    assert_eq!(extract(html, &strings(&["!!", "p", "div["])), "x");
}

#[test]
fn gather_text_concatenates_nodes_then_elements() {
    let found = vec![strings(&["a", "b"]), strings(&[]), strings(&[" c "])];
    assert_eq!(gather_text(&found), "ab c ");
    assert_eq!(gather_text(&Vec::new()), "");
}

#[test]
fn text_of_nothing_is_empty() {
    assert_eq!(text_of(&None), "");
    assert_eq!(text_of(&Some(vec![strings(&["x", "y"])])), "xy");
}

#[test]
fn render_trims_and_ends_the_line() {
    assert_eq!(render(" Hello \n"), Some("Hello\n".to_string()));
    assert_eq!(render("a b"), Some("a b\n".to_string()));
    assert_eq!(render(""), None);
    assert_eq!(render(" \n "), None);
}

#[test]
fn valid_arguments_pass_validation() {
    assert_eq!(selectors_validator("#a"), Ok(()));
    assert_eq!(selectors_validator("h1,p"), Ok(()));
    assert_eq!(selectors_validator("div > p.x, ul li:first-child"), Ok(()));
}

#[test]
fn invalid_pieces_are_listed() {
    assert_eq!(
        selectors_validator("h1,!!,p,div["),
        Err("Failed parsing selector(s): !!, div[".to_string())
    );
    assert_eq!(selectors_validator("!!"), Err("Failed parsing selector(s): !!".to_string()));
}

#[test]
fn empty_piece_is_invalid() {
    assert_eq!(selectors_validator(""), Err("Failed parsing selector(s): ".to_string()));
    assert_eq!(selectors_validator("h1,,p"), Err("Failed parsing selector(s): ".to_string()));
}

#[test]
fn invalid_selectors_keeps_order() {
    assert_eq!(invalid_selectors(&strings(&["p", "!!", "#a", "div["])), strings(&["!!", "div["]));
    assert_eq!(invalid_selectors(&strings(&["p", "#a"])), strings(&[]));
}

#[test]
fn report_names_the_pieces() {
    assert_eq!(report(&strings(&[])), Ok(()));
    assert_eq!(report(&strings(&["x"])), Err("Failed parsing selector(s): x".to_string()));
    assert_eq!(report(&strings(&["x", "y z"])), Err("Failed parsing selector(s): x, y z".to_string()));
}

#[test]
fn invalid_selector_is_refused_before_anything_is_read() {
    match App::new(strings(&["p", "a,!!", "div["]), None) {
        Ok(_) => panic!("accepted an invalid selector"),
        Err(message) => assert_eq!(message, "Failed parsing selector(s): !!"),
    }
}

#[test]
fn piped_input_wins_over_the_path() {
    let with_path = match App::new(strings(&["p"]), Some("page.html".to_string())) {
        Ok(app) => app,
        Err(message) => panic!("{}", message),
    };
    assert!(matches!(with_path.input(false), Source::Stdin));
    assert!(matches!(app(&["p"]).input(false), Source::Stdin));
}

#[test]
fn at_a_terminal_the_path_is_read() {
    let with_path = match App::new(strings(&["p"]), Some("page.html".to_string())) {
        Ok(app) => app,
        Err(message) => panic!("{}", message),
    };
    match with_path.input(true) {
        Source::File(path) => assert_eq!(path, "page.html"),
        _ => panic!("expected the file"),
    }
}

#[test]
fn at_a_terminal_without_a_path_nothing_can_be_read() {
    assert!(matches!(app(&["p"]).input(true), Source::Missing));
}

#[test]
fn status_is_one_when_nothing_was_found() {
    let html = "<div id=\"a\">Hello</div>";
    assert_eq!(exit_status(&app(&["#b"]).run(html)), 1);
    assert_eq!(exit_status(&app(&["#a"]).run(html)), 0);
    assert_eq!(exit_status(&None), 1);
    assert_eq!(exit_status(&Some("x\n".to_string())), 0);
}

#[test]
fn missing_input_ends_with_status_one() {
    assert_eq!(app(&["p"]).input(true).early_status(), Some(1));
    assert_eq!(Source::Missing.early_status(), Some(1));
}

#[test]
fn a_source_to_read_settles_no_status() {
    assert_eq!(app(&["p"]).input(false).early_status(), None);
    assert_eq!(Source::Stdin.early_status(), None);
    assert_eq!(Source::File("page.html".to_string()).early_status(), None);
}

#[test]
fn ordinary_documents_fit() {
    assert!(document_fits(""));
    assert!(document_fits("<p>x</p>"));
    assert_eq!(MAX_DOCUMENT_BYTES, 536_870_912);
}

#[test]
fn the_limit_counts_bytes_and_is_inclusive() {
    let mut document = "\u{e9}".repeat(MAX_DOCUMENT_BYTES / 2);
    assert!(document_fits(&document));
    document.push('x');
    assert!(!document_fits(&document));
}
