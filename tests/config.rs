use emoti::{
    entry_text, font_size_from_lower, nesting_fits, format_entries, key_column_width, load_config, load_document,
    parse_document, resolve_style, selection_for, smart, string_pairs_of, Config, ConfigError,
    FontSize, Node, Selection, Style,
};

fn text(s: &str) -> Node {
    Node::Text(s.to_string())
}

fn pairs(items: &[(&str, &str)]) -> Vec<(String, String)> {
    items.iter().map(|(k, v)| (k.to_string(), v.to_string())).collect()
}

fn span_ok(line: &str, size: &str, color: &str, content: &str) -> bool {
    let s = format!("size='{}'", size);
    let f = format!("foreground='{}'", color);
    line == format!("<span {} {}>{}</span>", s, f, content)
        || line == format!("<span {} {}>{}</span>", f, s, content)
}

#[test]
fn end_to_end_scenario() {
    let config = load_config("mappings:\n  smile: \"🙂\"\n  heart: \"❤️\"\nstyle:\n  size: large\n").unwrap();
    assert_eq!(config.mappings, pairs(&[("smile", "🙂"), ("heart", "❤️")]));
    assert_eq!(config.style.fg_color, "#eeeeee");
    assert_eq!(config.style.size, FontSize::Large);
    let lines = format_entries(&config).unwrap();
    assert_eq!(lines.len(), 2);
    assert!(span_ok(&lines[0], "large", "#eeeeee", "smile\t🙂"));
    assert!(span_ok(&lines[1], "large", "#eeeeee", "heart\t❤️"));
    match selection_for(&config, Some(1)) {
        Selection::Copy(s) => assert_eq!(s, "❤️"),
        other => panic!("unexpected {:?}", other),
    }
}

#[test]
fn round_trip_keeps_pairs_in_order() {
    let config = load_config("mappings:\n  b: two\n  a: one\n  c: three\nstyle: {}\n").unwrap();
    assert_eq!(config.mappings, pairs(&[("b", "two"), ("a", "one"), ("c", "three")]));
}

#[test]
fn empty_strings_round_trip() {
    let config = load_config("mappings:\n  \"\": \"\"\nstyle:\n  fg_color: red\n").unwrap();
    assert_eq!(config.mappings, pairs(&[("", "")]));
    assert_eq!(config.style.fg_color, "red");
}

#[test]
fn style_defaults_when_keys_absent() {
    let config = load_config("mappings:\n  a: b\nstyle:\n  other: x\n").unwrap();
    assert_eq!(config.style.size, FontSize::Small);
    assert_eq!(config.style.fg_color, "#eeeeee");
}

#[test]
fn size_name_is_case_insensitive() {
    let config = load_config("mappings:\n  a: b\nstyle:\n  size: VeryHuge\n").unwrap();
    assert_eq!(config.style.size, FontSize::VeryHuge);
    let config = load_config("mappings:\n  a: b\nstyle:\n  size: LARGER\n").unwrap();
    assert_eq!(config.style.size, FontSize::Larger);
}

#[test]
fn invalid_size_keeps_original_text() {
    match load_config("mappings:\n  a: b\nstyle:\n  size: Gigantic\n") {
        Err(ConfigError::InvalidFontSize(s)) => assert_eq!(s, "Gigantic"),
        other => panic!("unexpected {:?}", other),
    }
}

#[test]
fn non_string_entries_are_dropped() {
    let config = load_config("mappings:\n  a: x\n  1: y\n  b: [1, 2]\n  c: z\nstyle: {}\n").unwrap();
    assert_eq!(config.mappings, pairs(&[("a", "x"), ("c", "z")]));
}

#[test]
fn missing_mappings_is_an_error() {
    assert!(matches!(load_config("style: {}\n"), Err(ConfigError::MissingMappings)));
    assert!(matches!(load_config("mappings: 3\nstyle: {}\n"), Err(ConfigError::MissingMappings)));
    assert!(matches!(load_config(""), Err(ConfigError::MissingMappings)));
}

#[test]
fn missing_style_is_an_error() {
    assert!(matches!(load_config("mappings:\n  a: b\n"), Err(ConfigError::MissingStyle)));
}

#[test]
fn malformed_yaml_is_a_scan_error() {
    assert!(matches!(load_config("mappings: [unclosed\n"), Err(ConfigError::YamlScan(_))));
    assert!(matches!(load_config("mappings: 'unclosed\n"), Err(ConfigError::YamlScan(_))));
}

#[test]
fn deep_nesting_is_refused_before_parsing() {
    let deep = format!("{}x", "- ".repeat(100_000));
    assert!(!nesting_fits(&deep));
    assert!(matches!(load_config(&deep), Err(ConfigError::TooDeep)));
    let brackets = format!("mappings: {}", "[".repeat(300));
    assert!(matches!(load_config(&brackets), Err(ConfigError::TooDeep)));
}

#[test]
fn nesting_bound_counts_longest_line_and_brackets() {
    assert!(nesting_fits(&"a".repeat(512)));
    assert!(!nesting_fits(&"a".repeat(513)));
    assert!(nesting_fits(&format!("{}\n{}", "a".repeat(500), "[".repeat(6))));
    assert!(!nesting_fits(&format!("{}\n{}", "a".repeat(500), "[".repeat(7))));
    assert!(nesting_fits(""));
}

#[test]
fn empty_mappings_load_but_do_not_format() {
    let config = load_config("mappings: {}\nstyle: {}\n").unwrap();
    assert!(config.mappings.is_empty());
    assert!(matches!(format_entries(&config), Err(ConfigError::EmptyMappings)));
}

#[test]
fn parse_document_reads_tables() {
    let doc = parse_document("mappings:\n  a: b\n").unwrap();
    match doc {
        Node::Table(entries) => {
            assert_eq!(entries.len(), 1);
            assert!(matches!(&entries[0].0, Node::Text(s) if s == "mappings"));
            assert!(matches!(&entries[0].1, Node::Table(inner) if inner.len() == 1));
        }
        other => panic!("unexpected {:?}", other),
    }
}

#[test]
fn load_document_from_nodes() {
    let doc = Node::Table(vec![
        (text("mappings"), Node::Table(vec![(text("k"), text("v")), (Node::Other, text("w"))])),
        (text("style"), Node::Table(vec![(text("fg_color"), text("#123456"))])),
    ]);
    let config = load_document(&doc).unwrap();
    assert_eq!(config.mappings, pairs(&[("k", "v")]));
    assert_eq!(config.style.fg_color, "#123456");
    assert_eq!(config.style.size, FontSize::Small);
}

#[test]
fn repeated_key_takes_last_value_in_first_place() {
    let entries = vec![(text("a"), text("1")), (text("b"), text("2")), (text("a"), text("3"))];
    assert_eq!(string_pairs_of(&entries), pairs(&[("a", "3"), ("b", "2")]));
}

#[test]
fn font_sizes_by_name() {
    assert_eq!(font_size_from_lower("verytiny"), Some(FontSize::VeryTiny));
    assert_eq!(font_size_from_lower("tiny"), Some(FontSize::Tiny));
    assert_eq!(font_size_from_lower("small"), Some(FontSize::Small));
    assert_eq!(font_size_from_lower("normal"), Some(FontSize::Normal));
    assert_eq!(font_size_from_lower("large"), Some(FontSize::Large));
    assert_eq!(font_size_from_lower("huge"), Some(FontSize::Huge));
    assert_eq!(font_size_from_lower("veryhuge"), Some(FontSize::VeryHuge));
    assert_eq!(font_size_from_lower("smaller"), Some(FontSize::Smaller));
    assert_eq!(font_size_from_lower("larger"), Some(FontSize::Larger));
    assert_eq!(font_size_from_lower("Large"), None);
    assert_eq!(font_size_from_lower("medium"), None);
}

#[test]
fn resolve_style_from_pairs() {
    let style = resolve_style(&pairs(&[("size", "Tiny"), ("fg_color", "blue")])).unwrap();
    assert_eq!(style.size, FontSize::Tiny);
    assert_eq!(style.fg_color, "blue");
}

#[test]
fn entry_text_pads_key() {
    assert_eq!(entry_text("ab", "x", 5), "ab   \tx");
    assert_eq!(entry_text("abcde", "x", 5), "abcde\tx");
    assert_eq!(entry_text("é", "y", 3), "é  \ty");
}

#[test]
fn key_column_width_is_longest_key() {
    assert_eq!(key_column_width(&pairs(&[("a", "1"), ("abcd", "2"), ("ab", "3")])), 4);
    assert_eq!(key_column_width(&pairs(&[])), 0);
}

#[test]
fn format_pads_to_longest_key() {
    let config = Config {
        mappings: pairs(&[("a", "1"), ("abc", "2")]),
        style: Style { fg_color: "#00ff00".to_string(), size: FontSize::Huge },
    };
    let lines = format_entries(&config).unwrap();
    assert_eq!(lines.len(), 2);
    assert!(span_ok(&lines[0], "x-large", "#00ff00", "a  \t1"));
    assert!(span_ok(&lines[1], "x-large", "#00ff00", "abc\t2"));
}

#[test]
fn selection_outcomes() {
    let config = Config { mappings: pairs(&[("a", "1")]), style: Style { fg_color: "c".to_string(), size: FontSize::Small } };
    assert!(matches!(selection_for(&config, Some(0)), Selection::Copy(s) if s == "1"));
    assert!(matches!(selection_for(&config, None), Selection::Cancelled));
    assert!(matches!(selection_for(&config, Some(1)), Selection::OutOfRange));
}

#[test]
fn smart_path_fallbacks() {
    let s = |v: &str| Some(v.to_string());
    assert_eq!(smart(s("/cfg"), s("/h"), s("u")).unwrap(), "/cfg/emoti/config.yaml");
    assert_eq!(smart(None, s("/h"), s("u")).unwrap(), "/h/.config/emoti/config.yaml");
    assert_eq!(smart(None, None, s("u")).unwrap(), "/home/u/emoti/config.yaml");
    assert!(matches!(smart(None, None, None), Err(ConfigError::SmartPath)));
}
