use vstd::prelude::*;

verus! {

/// A rendered page and the path it is to be saved at.
#[derive(Debug)]
pub struct HtmlFile {
    pub path_to_save: String,
    pub content: String,
}

impl HtmlFile {
    pub fn new(path_to_save: String, content: String) -> (file: Self)
        ensures
            file.path_to_save == path_to_save,
            file.content == content,
    {
        Self { path_to_save, content }
    }
}

} // verus!
