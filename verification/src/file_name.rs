//! The name of a page of the catalogue site, such as `release/album/artist/title/`.
use vstd::prelude::*;

verus! {

/// A page name. Albums, artists and charts are all addressed by one.
pub struct FileName(pub String);

impl View for FileName {
    type V = Seq<char>;

    open spec fn view(&self) -> Seq<char> {
        self.0@
    }
}

impl Clone for FileName {
    fn clone(&self) -> (res: Self)
        ensures
            res == *self,
    {
        FileName(self.0.clone())
    }
}

impl FileName {
    /// The page name as text.
    pub fn to_string(&self) -> (res: String)
        ensures
            res@ == self@,
    {
        self.0.clone()
    }

    /// Whether two page names are the same.
    pub fn same_as(&self, other: &FileName) -> (res: bool)
        ensures
            res == (self@ == other@),
    {
        self.0 == other.0
    }
}

/// The texts of a list of page names, in order.
pub fn file_names_to_strings(file_names: &Vec<FileName>) -> (res: Vec<String>)
    ensures
        res@.len() == file_names@.len(),
        forall|i: int| 0 <= i < res@.len() ==> #[trigger] res@[i]@ == file_names@[i]@,
{
    let mut res: Vec<String> = Vec::new();
    for i in 0..file_names.len()
        invariant
            res@.len() == i,
            forall|j: int| 0 <= j < i ==> #[trigger] res@[j]@ == file_names@[j]@,
    {
        res.push(file_names[i].to_string());
    }
    res
}

} // verus!
