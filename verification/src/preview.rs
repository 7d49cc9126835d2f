//! The two preview panes' state: where the original image and the
//! nordified render currently live on disk. An empty location means the
//! pane still shows its built-in placeholder.

use vstd::prelude::*;

verus! {

/// The source-image pane's location.
pub struct OriginalImage {
    loc: String,
}

impl View for OriginalImage {
    type V = Seq<char>;

    closed spec fn view(&self) -> Seq<char> {
        self.loc@
    }
}

impl OriginalImage {
    /// The path currently shown, empty for the placeholder.
    pub fn location(&self) -> (r: &str)
        ensures
            r@ == self@,
    {
        self.loc.as_str()
    }

    /// Points the pane at a new path.
    pub fn set_loc(&mut self, new: &str)
        ensures
            final(self)@ == new@,
    {
        self.loc = new.to_owned();
    }
}

impl Default for OriginalImage {
    fn default() -> (r: OriginalImage)
        ensures
            r@.len() == 0,
    {
        OriginalImage { loc: String::new() }
    }
}

/// The rendered-preview pane's location.
pub struct NordifiedImage {
    loc: String,
}

impl View for NordifiedImage {
    type V = Seq<char>;

    closed spec fn view(&self) -> Seq<char> {
        self.loc@
    }
}

impl NordifiedImage {
    /// The path currently shown, empty for the placeholder.
    pub fn location(&self) -> (r: &str)
        ensures
            r@ == self@,
    {
        self.loc.as_str()
    }

    /// Points the pane at a new path.
    pub fn set_loc(&mut self, new: &str)
        ensures
            final(self)@ == new@,
    {
        self.loc = new.to_owned();
    }
}

impl Default for NordifiedImage {
    fn default() -> (r: NordifiedImage)
        ensures
            r@.len() == 0,
    {
        NordifiedImage { loc: String::new() }
    }
}

/// Both preview panes.
pub struct Previews {
    pub original: OriginalImage,
    pub nordified: NordifiedImage,
}

impl Default for Previews {
    fn default() -> (r: Previews)
        ensures
            r.original@.len() == 0,
            r.nordified@.len() == 0,
    {
        Previews { original: OriginalImage::default(), nordified: NordifiedImage::default() }
    }
}

} // verus!
