use void_editor::theme_table::{theme_block, theme_entry, theme_entry_from_words, themes_source, ThemeLine};

fn entry(line: &str) -> Option<String> {
    match theme_entry(line) {
        ThemeLine::Entry(e) => Some(e),
        _ => None,
    }
}

#[test]
fn a_colour_line_becomes_an_entry() {
    assert_eq!(
        Some(String::from("\t\t\"background0\" => color_u8!(44, 33, 59, 255),\n")),
        entry("background0 2c213b")
    );
    assert_eq!(
        Some(String::from("\t\t\"fg\" => color_u8!(15, 0, 10, 255),\n")),
        entry("  fg \t f0a  extra")
    );
}

#[test]
fn empty_and_comment_lines_are_skipped() {
    assert!(matches!(theme_entry(""), ThemeLine::Skip));
    assert!(matches!(theme_entry("# a comment"), ThemeLine::Skip));
}

#[test]
fn lines_without_a_colour_are_malformed() {
    assert!(matches!(theme_entry("name"), ThemeLine::Malformed));
    assert!(matches!(theme_entry("name zz"), ThemeLine::Malformed));
    assert!(matches!(theme_entry("   "), ThemeLine::Malformed));
}

#[test]
fn entry_from_given_words() {
    let words = vec![String::from("k"), String::from("ffffff")];
    match theme_entry_from_words("k ffffff", &words) {
        ThemeLine::Entry(e) => assert_eq!("\t\t\"k\" => color_u8!(255, 255, 255, 255),\n", e),
        _ => panic!("expected an entry"),
    }
}

#[test]
fn a_theme_file_becomes_a_map() {
    let block = theme_block("default", "# colours\nbg 2c213b\r\n\nfg fff\n");
    assert_eq!(
        Some(String::from(
            "\t\"default\" => phf_map! {\n\t\t\"bg\" => color_u8!(44, 33, 59, 255),\n\t\t\"fg\" => color_u8!(15, 15, 15, 255),\n\t},\n"
        )),
        block
    );
    assert_eq!(None, theme_block("bad", "bg 2c213b\nfg\n"));
}

#[test]
fn the_table_holds_every_theme() {
    let themes = vec![
        (String::from("a"), String::from("x 000000\n")),
        (String::from("b"), String::from("")),
    ];
    let expected = String::from(
        "use phf::{Map, phf_map};\nuse macroquad::{color::Color, color_u8};\n\npub const THEMES: Map<&'static str, Map<&'static str, Color>> = phf_map! {\n\t\"a\" => phf_map! {\n\t\t\"x\" => color_u8!(0, 0, 0, 255),\n\t},\n\t\"b\" => phf_map! {\n\t},\n};\n",
    );
    assert_eq!(Some(expected), themes_source(&themes));
    let broken = vec![(String::from("c"), String::from("y\n"))];
    assert_eq!(None, themes_source(&broken));
}
