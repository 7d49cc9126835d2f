use nordify::browser::{
    Browser, BrowserEvent, DeleteOutcome, Listing, NavAction, NavError,
};
use nordify::listing::{EntryKind, RawEntry};

fn raw(name: &str, full_path: &str, is_dir: bool) -> RawEntry {
    RawEntry { name: name.to_string(), full_path: full_path.to_string(), is_dir }
}

fn browser_at(dir: &str, children: Vec<RawEntry>) -> Browser {
    let mut b = Browser::new(dir.to_string());
    let r = b.apply_listing(dir.to_string(), Listing::Entries(children));
    assert!(r.is_ok());
    b
}

fn sample_children() -> Vec<RawEntry> {
    vec![
        raw("Desktop", "/home/u/Desktop", true),
        raw("b.txt", "/home/u/b.txt", false),
        raw("a.png", "/home/u/a.png", false),
        raw(".hidden", "/home/u/.hidden", false),
    ]
}

#[test]
fn submit_existing_directory_moves_there() {
    let mut b = browser_at("/home/u", sample_children());
    match b.update(BrowserEvent::AddrChanged("/tmp".to_string())) {
        NavAction::Idle => (),
        _ => panic!("address edit asks for nothing"),
    }
    assert_eq!(b.address_text.as_str(), "/tmp");
    assert_eq!(b.current_dir.as_str(), "/home/u");
    let target = match b.update(BrowserEvent::AddrSubmit) {
        NavAction::ReadDir(t) => t,
        _ => panic!("submit asks for a listing"),
    };
    assert_eq!(target.as_str(), "/tmp");
    let tmp_children = vec![raw("x.png", "/tmp/x.png", false)];
    let r = b.apply_listing(target, Listing::Entries(tmp_children));
    assert!(r.is_ok());
    assert_eq!(b.current_dir.as_str(), "/tmp");
    assert_eq!(b.address_text.as_str(), "/tmp");
    assert_eq!(b.index.len(), 1);
    assert_eq!(b.index[0].name.as_str(), "x.png");
}

#[test]
fn submit_non_directory_changes_nothing() {
    let mut b = browser_at("/home/u", sample_children());
    b.update(BrowserEvent::AddrChanged("/no/such/dir".to_string()));
    let target = match b.update(BrowserEvent::AddrSubmit) {
        NavAction::ReadDir(t) => t,
        _ => panic!("submit asks for a listing"),
    };
    let r = b.apply_listing(target, Listing::NotADirectory);
    assert!(r.is_ok());
    assert_eq!(b.current_dir.as_str(), "/home/u");
    assert_eq!(b.index.len(), 3);
    assert_eq!(b.index[0].name.as_str(), "Desktop");
}

#[test]
fn unreadable_directory_reports_error_and_keeps_state() {
    let mut b = browser_at("/home/u", sample_children());
    let r = b.apply_listing("/root/private".to_string(), Listing::Unreadable);
    assert_eq!(r, Err(NavError::ListingFailed));
    assert_eq!(b.current_dir.as_str(), "/home/u");
    assert_eq!(b.index.len(), 3);
}

#[test]
fn click_image_selects_exactly_that_entry() {
    let mut b = browser_at("/home/u", sample_children());
    assert_eq!(b.index[1].kind, EntryKind::Image);
    match b.update(BrowserEvent::ContentClicked(1)) {
        NavAction::Idle => (),
        _ => panic!("an image click asks for nothing"),
    }
    assert_eq!(b.global_selection.as_deref(), Some("/home/u/a.png"));
    assert!(b.index[1].selected);
    assert!(!b.index[0].selected);
    assert!(!b.index[2].selected);
    assert_eq!(b.current_dir.as_str(), "/home/u");
}

#[test]
fn click_second_image_clears_first_flag() {
    let children = vec![raw("a.png", "/d/a.png", false), raw("b.png", "/d/b.png", false)];
    let mut b = browser_at("/d", children);
    b.update(BrowserEvent::ContentClicked(0));
    assert!(b.index[0].selected);
    b.update(BrowserEvent::ContentClicked(1));
    assert!(!b.index[0].selected);
    assert!(b.index[1].selected);
    assert_eq!(b.global_selection.as_deref(), Some("/d/b.png"));
}

#[test]
fn click_directory_requests_that_listing() {
    let mut b = browser_at("/home/u", sample_children());
    assert_eq!(b.index[0].kind, EntryKind::Directory);
    let target = match b.update(BrowserEvent::ContentClicked(0)) {
        NavAction::ReadDir(t) => t,
        _ => panic!("a directory click asks for its listing"),
    };
    assert_eq!(target.as_str(), "/home/u/Desktop");
    assert_eq!(b.current_dir.as_str(), "/home/u");
    assert!(b.global_selection.is_none());
    let r = b.apply_listing(target, Listing::Entries(vec![raw(
        "shot.png",
        "/home/u/Desktop/shot.png",
        false,
    )]));
    assert!(r.is_ok());
    assert_eq!(b.current_dir.as_str(), "/home/u/Desktop");
    assert_eq!(b.address_text.as_str(), "/home/u/Desktop");
    assert_eq!(b.index.len(), 1);
}

#[test]
fn click_generic_or_stale_ordinal_is_ignored() {
    let mut b = browser_at("/home/u", sample_children());
    assert_eq!(b.index[2].kind, EntryKind::Generic);
    match b.update(BrowserEvent::ContentClicked(2)) {
        NavAction::Idle => (),
        _ => panic!("a generic click does nothing"),
    }
    assert!(b.global_selection.is_none());
    match b.update(BrowserEvent::ContentClicked(99)) {
        NavAction::Idle => (),
        _ => panic!("an out-of-range click does nothing"),
    }
    assert_eq!(b.index.len(), 3);
}

#[test]
fn selection_persists_across_navigation() {
    let mut b = browser_at("/home/u", sample_children());
    b.update(BrowserEvent::ContentClicked(1));
    let r = b.apply_listing("/tmp".to_string(), Listing::Entries(Vec::new()));
    assert!(r.is_ok());
    assert_eq!(b.global_selection.as_deref(), Some("/home/u/a.png"));
}

#[test]
fn dir_up_relists_parent_and_updates_address() {
    let mut b = browser_at("/home/u", sample_children());
    let target = match b.update(BrowserEvent::DirUp) {
        NavAction::ReadDir(t) => t,
        _ => panic!("going up asks for the parent"),
    };
    assert_eq!(target.as_str(), "/home");
    let r = b.apply_listing(target, Listing::Entries(vec![raw("u", "/home/u", true)]));
    assert!(r.is_ok());
    assert_eq!(b.current_dir.as_str(), "/home");
    assert_eq!(b.address_text.as_str(), "/home");
}

#[test]
fn dir_up_at_root_is_a_no_op() {
    let mut b = browser_at("/", Vec::new());
    match b.update(BrowserEvent::DirUp) {
        NavAction::Idle => (),
        _ => panic!("the root has no parent"),
    }
    assert_eq!(b.current_dir.as_str(), "/");
}

#[test]
fn delete_without_selection_is_ignored() {
    let mut b = browser_at("/home/u", sample_children());
    match b.update(BrowserEvent::DelSelected) {
        NavAction::Idle => (),
        _ => panic!("nothing selected, nothing to delete"),
    }
}

#[test]
fn delete_selected_clears_selection_and_relists() {
    let mut b = browser_at("/home/u", sample_children());
    b.update(BrowserEvent::ContentClicked(1));
    let victim = match b.update(BrowserEvent::DelSelected) {
        NavAction::RemoveFile(p) => p,
        _ => panic!("a selection asks for its removal"),
    };
    assert_eq!(victim.as_str(), "/home/u/a.png");
    let after = vec![raw("Desktop", "/home/u/Desktop", true), raw("b.txt", "/home/u/b.txt", false)];
    let r = b.apply_delete(DeleteOutcome::Removed(Listing::Entries(after)));
    assert!(r.is_ok());
    assert!(b.global_selection.is_none());
    assert_eq!(b.index.len(), 2);
}

#[test]
fn delete_of_missing_file_reports_error_and_keeps_state() {
    let mut b = browser_at("/home/u", sample_children());
    b.update(BrowserEvent::ContentClicked(1));
    let r = b.apply_delete(DeleteOutcome::Missing);
    assert_eq!(r, Err(NavError::DeleteFailed));
    assert_eq!(b.global_selection.as_deref(), Some("/home/u/a.png"));
    assert!(b.index[1].selected);
}

#[test]
fn startup_has_empty_index_and_no_selection() {
    let b = Browser::startup();
    assert_eq!(b.index.len(), 0);
    assert!(b.global_selection.is_none());
    assert_eq!(b.current_dir, b.address_text);
}
