use vstd::prelude::*;

pub mod browser;
pub mod keys;
pub mod filekind;
pub mod lexord;
pub mod listing;
pub mod menu;
pub mod pathtext;
pub mod preview;
pub mod staging;

use crate::browser::BrowserEvent;
use crate::menu::MenuEvent;

verus! {

/// A command entering the application: for the navigation state machine,
/// for the pipeline orchestrator, or the request to quit.
#[derive(Clone, Debug)]
pub enum Event {
    Browser(BrowserEvent),
    Menu(MenuEvent),
    Quit,
}

} // verus!
