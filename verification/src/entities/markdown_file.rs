use vstd::prelude::*;

verus! {

/// A markdown source and the path it was read from.
#[derive(Debug)]
pub struct MarkdownFile {
    pub path: String,
    pub content: String,
}

impl MarkdownFile {
    pub fn create(path: String, content: String) -> (file: Self)
        ensures
            file.path == path,
            file.content == content,
    {
        Self { path, content }
    }
}

impl From<(String, String)> for MarkdownFile {
    fn from(value: (String, String)) -> (file: Self) {
        let (path, content) = value;
        MarkdownFile::create(path, content)
    }
}

impl vstd::std_specs::convert::FromSpecImpl<(String, String)> for MarkdownFile {
    open spec fn obeys_from_spec() -> bool {
        true
    }

    open spec fn from_spec(v: (String, String)) -> Self {
        MarkdownFile { path: v.0, content: v.1 }
    }
}

} // verus!
