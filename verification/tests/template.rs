use osu_lazer_manager::template::{render, replace_all};

#[test]
fn render_substitutes_both_markers() {
    let template = "[Desktop Entry]\nIcon={icon}\nExec={executable}\n";
    let out = render(template, "/data/osu-lazer.png", "/data/repository/2023.2");
    assert_eq!(
        out,
        "[Desktop Entry]\nIcon=/data/osu-lazer.png\nExec=/data/repository/2023.2\n"
    );
}

#[test]
fn render_replaces_every_occurrence() {
    let template = "{icon} {icon} {executable}";
    let out = render(template, "i.png", "app");
    assert_eq!(out, "i.png i.png app");
}

#[test]
fn render_without_markers_copies_the_template() {
    let template = "[Desktop Entry]\nName=osu!\n";
    let out = render(template, "i.png", "app");
    assert_eq!(out, template);
}

#[test]
fn replace_all_basics() {
    assert_eq!(replace_all("aaa", "a", "b"), "bbb");
    assert_eq!(replace_all("abcabc", "bc", "x"), "axax");
    assert_eq!(replace_all("abc", "", "x"), "abc");
    assert_eq!(replace_all("", "a", "x"), "");
    assert_eq!(replace_all("ab", "abc", "x"), "ab");
}

#[test]
fn replace_all_does_not_rescan_substituted_text() {
    assert_eq!(replace_all("aa", "aa", "a"), "a");
    assert_eq!(replace_all("aba", "ab", "ab"), "aba");
}
