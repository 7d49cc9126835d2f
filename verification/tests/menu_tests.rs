use nordify::browser::{Browser, BrowserEvent, Listing};
use nordify::listing::RawEntry;
use nordify::menu::{
    parse_u8, Config, MapperJob, Menu, MenuAction, MenuEvent, Mode, Strategy, UType,
};

fn raw(name: &str, full_path: &str, is_dir: bool) -> RawEntry {
    RawEntry { name: name.to_string(), full_path: full_path.to_string(), is_dir }
}

fn browser_with_selection(dir: &str, file: &str) -> Browser {
    let mut b = Browser::new(dir.to_string());
    let full = format!("{dir}/{file}");
    let r = b.apply_listing(dir.to_string(), Listing::Entries(vec![raw(file, &full, false)]));
    assert!(r.is_ok());
    b.update(BrowserEvent::ContentClicked(0));
    assert_eq!(b.global_selection.as_deref(), Some(full.as_str()));
    b
}

fn fresh_menu() -> Menu {
    Menu::new("/tmp/stage".to_string())
}

#[test]
fn defaults_are_default_mode_k32_empty_filename() {
    let c = Config::default();
    assert_eq!(c.mode, Mode::Default);
    assert_eq!(c.kval, 32);
    assert_eq!(c.filename.as_str(), "");
}

#[test]
fn parse_u8_accepts_digits_and_rejects_the_rest() {
    assert_eq!(parse_u8("10"), Some(10));
    assert_eq!(parse_u8("0"), Some(0));
    assert_eq!(parse_u8("255"), Some(255));
    assert_eq!(parse_u8("256"), None);
    assert_eq!(parse_u8("007"), Some(7));
    assert_eq!(parse_u8("+7"), Some(7));
    assert_eq!(parse_u8("+"), None);
    assert_eq!(parse_u8(""), None);
    assert_eq!(parse_u8("abc"), None);
    assert_eq!(parse_u8("1a"), None);
    assert_eq!(parse_u8("-1"), None);
    assert_eq!(parse_u8("99999999999999999999"), None);
}

#[test]
fn k_value_via_text_and_invalid_text_ignored() {
    let b = Browser::new("/d".to_string());
    let mut m = fresh_menu();
    m.update(&b, MenuEvent::SelectMode(Mode::Knn));
    assert_eq!(m.config.mode, Mode::Knn);
    m.update(&b, MenuEvent::SetKVal(UType::Text("10".to_string())));
    assert_eq!(m.config.kval, 10);
    m.update(&b, MenuEvent::SetKVal(UType::Text("abc".to_string())));
    assert_eq!(m.config.kval, 10);
    m.update(&b, MenuEvent::SetKVal(UType::Num(200)));
    assert_eq!(m.config.kval, 200);
}

#[test]
fn k_value_is_retained_across_mode_switches() {
    let b = Browser::new("/d".to_string());
    let mut m = fresh_menu();
    m.update(&b, MenuEvent::SetKVal(UType::Num(10)));
    m.update(&b, MenuEvent::SelectMode(Mode::Creative));
    m.update(&b, MenuEvent::SelectMode(Mode::Knn));
    assert_eq!(m.config.kval, 10);
}

#[test]
fn preview_without_selection_is_a_no_op() {
    let b = Browser::new("/d".to_string());
    let mut m = fresh_menu();
    match m.update(&b, MenuEvent::Preview) {
        MenuAction::Idle => (),
        _ => panic!("no selection, no preview"),
    }
}

fn expect_preview(m: &mut Menu, b: &Browser) -> MapperJob {
    match m.update(b, MenuEvent::Preview) {
        MenuAction::RunPreview(job) => job,
        _ => panic!("a selection allows a preview"),
    }
}

#[test]
fn preview_runs_into_a_fresh_staging_path() {
    let b = browser_with_selection("/pics", "cat.png");
    let mut m = fresh_menu();
    let job = expect_preview(&mut m, &b);
    assert_eq!(job.input.as_str(), "/pics/cat.png");
    assert_eq!(job.strategy, Strategy::Default);
    assert!(job.output.starts_with("/tmp/stage/nordified"));
    assert!(job.output.ends_with(".png"));
    assert_eq!(job.output.len(), "/tmp/stage".len() + 17);
    let tag = &job.output["/tmp/stage/nordified".len()..job.output.len() - 4];
    assert_eq!(tag.len(), 3);
    assert!(tag.chars().all(|c| c.is_ascii_alphanumeric()));
}

#[test]
fn preview_strategy_follows_the_mode() {
    let b = browser_with_selection("/pics", "cat.png");
    let mut m = fresh_menu();
    m.update(&b, MenuEvent::SelectMode(Mode::Creative));
    assert_eq!(expect_preview(&mut m, &b).strategy, Strategy::Creative);
    m.update(&b, MenuEvent::SelectMode(Mode::Knn));
    m.update(&b, MenuEvent::SetKVal(UType::Num(10)));
    assert_eq!(expect_preview(&mut m, &b).strategy, Strategy::Knn(10));
}

#[test]
fn save_without_selection_or_with_bad_filename_is_a_no_op() {
    let empty = Browser::new("/d".to_string());
    let mut m = fresh_menu();
    m.update(&empty, MenuEvent::FilenameChanged("out.png".to_string()));
    match m.update(&empty, MenuEvent::Save) {
        MenuAction::Idle => (),
        _ => panic!("no selection, no save"),
    }
    let b = browser_with_selection("/pics", "cat.png");
    m.update(&b, MenuEvent::FilenameChanged("".to_string()));
    match m.update(&b, MenuEvent::Save) {
        MenuAction::Idle => (),
        _ => panic!("an empty filename saves nothing"),
    }
    m.update(&b, MenuEvent::FilenameChanged("cat.txt".to_string()));
    match m.update(&b, MenuEvent::Save) {
        MenuAction::Idle => (),
        _ => panic!("an unrecognized extension saves nothing"),
    }
}

#[test]
fn filename_with_separator_makes_save_a_no_op() {
    let b = browser_with_selection("/pics", "cat.png");
    let mut m = fresh_menu();
    m.update(&b, MenuEvent::FilenameChanged("out/a.png".to_string()));
    match m.update(&b, MenuEvent::Save) {
        MenuAction::Idle => (),
        _ => panic!("a path separator saves nothing"),
    }
    assert_eq!(b.current_dir.as_str(), "/pics");
    assert_eq!(b.index.len(), 1);
}

#[test]
fn save_writes_into_the_current_directory() {
    let b = browser_with_selection("/pics", "cat.png");
    let mut m = fresh_menu();
    m.update(&b, MenuEvent::FilenameChanged("cat_nordified.png".to_string()));
    let job = match m.update(&b, MenuEvent::Save) {
        MenuAction::RunSave(job) => job,
        _ => panic!("a valid save runs the mapper"),
    };
    assert_eq!(job.input.as_str(), "/pics/cat.png");
    assert_eq!(job.output.as_str(), "/pics/cat_nordified.png");
    assert_eq!(job.strategy, Strategy::Default);
}

#[test]
fn reset_restores_defaults_and_proposes_a_filename() {
    let b = browser_with_selection("/pics", "cat.png");
    let mut m = fresh_menu();
    m.update(&b, MenuEvent::SelectMode(Mode::Knn));
    m.update(&b, MenuEvent::SetKVal(UType::Num(9)));
    m.update(&b, MenuEvent::FilenameChanged("whatever.txt".to_string()));
    m.update(&b, MenuEvent::Reset);
    assert_eq!(m.config.mode, Mode::Default);
    assert_eq!(m.config.kval, 32);
    assert_eq!(m.config.filename.as_str(), "cat_nordified.png");
}

#[test]
fn reset_without_selection_clears_the_filename() {
    let b = Browser::new("/d".to_string());
    let mut m = fresh_menu();
    m.update(&b, MenuEvent::FilenameChanged("x.png".to_string()));
    m.update(&b, MenuEvent::Reset);
    assert_eq!(m.config.filename.as_str(), "");
    assert_eq!(m.config.mode, Mode::Default);
    assert_eq!(m.config.kval, 32);
}

#[test]
fn reset_keeps_only_the_last_extension_out_of_the_stem() {
    let b = browser_with_selection("/pics", "arch.tar.png");
    let mut m = fresh_menu();
    m.update(&b, MenuEvent::Reset);
    assert_eq!(m.config.filename.as_str(), "arch.tar_nordified.png");
}

#[test]
fn scenario_click_then_reset_proposes_a_nordified() {
    let mut b = Browser::new("/home/u".to_string());
    let children = vec![
        raw("Desktop", "/home/u/Desktop", true),
        raw("b.txt", "/home/u/b.txt", false),
        raw("a.png", "/home/u/a.png", false),
        raw(".hidden", "/home/u/.hidden", false),
    ];
    let r = b.apply_listing("/home/u".to_string(), Listing::Entries(children));
    assert!(r.is_ok());
    b.update(BrowserEvent::ContentClicked(1));
    assert_eq!(b.global_selection.as_deref(), Some("/home/u/a.png"));
    assert!(b.index[1].selected);
    let mut m = fresh_menu();
    m.update(&b, MenuEvent::Reset);
    assert_eq!(m.config.filename.as_str(), "a_nordified.png");
}

#[test]
fn mode_labels() {
    assert_eq!(Mode::Default.label(), "Default");
    assert_eq!(Mode::Creative.label(), "Creative");
    assert_eq!(Mode::Knn.label(), "kNN");
}

#[test]
fn focus_filename_only_asks_for_focus() {
    let b = Browser::new("/d".to_string());
    let mut m = fresh_menu();
    m.update(&b, MenuEvent::FilenameChanged("keep.png".to_string()));
    match m.update(&b, MenuEvent::FocusFileName) {
        MenuAction::FocusFilename => (),
        _ => panic!("focus asks for focus"),
    }
    assert_eq!(m.config.filename.as_str(), "keep.png");
}
