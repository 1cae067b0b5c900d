use gqy_web::themes::{sort_themes, theme_entry, ThemeInfo};

fn theme(name: &str, title: &str) -> ThemeInfo {
    ThemeInfo { name: name.to_string(), title: title.to_string(), description: String::new(), accent: None }
}

#[test]
fn theme_files_are_listed_by_name_and_size() {
    assert_eq!(theme_entry("linen.css", true, 1024), Some("linen".to_string()));
    assert_eq!(theme_entry("linen.css", false, 1024), None);
    assert_eq!(theme_entry("linen.css", true, 256 * 1024 + 1), None);
    assert_eq!(theme_entry("linen.css", true, 256 * 1024), Some("linen".to_string()));
    assert_eq!(theme_entry("Linen.css", true, 10), None);
    assert_eq!(theme_entry("-dark.css", true, 10), None);
    assert_eq!(theme_entry("linen.txt", true, 10), None);
}

#[test]
fn the_picker_lists_themes_by_title_keeping_ties_in_order() {
    let sorted = sort_themes(vec![theme("c", "Sea"), theme("a", "Dusk"), theme("b", "Sea"), theme("d", "Amber")]);
    let names: Vec<&str> = sorted.iter().map(|t| t.name.as_str()).collect();
    assert_eq!(names, vec!["d", "a", "c", "b"]);
}
