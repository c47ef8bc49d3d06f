use vstd::prelude::*;

verus! {

/// The program's arguments: the source folder with markdowns and the destination folder
/// for the prepared HTML.
#[derive(Debug)]
pub struct Args {
    /// Source folder with markdowns
    pub input: String,
    /// Destination folder for prepared html
    pub out: String,
}

} // verus!
