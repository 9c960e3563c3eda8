//! Relay page information of a connection.
use vstd::prelude::*;

verus! {

/// Where a page of a connection stands among all the pages.
#[derive(Debug, Clone)]
pub struct PageInfo {
    pub has_next_page: bool,
    pub has_previous_page: bool,
    pub start_cursor: String,
    pub end_cursor: String,
}

impl PageInfo {
    /// The page information of a connection delivered whole, in a single page
    /// without cursors.
    pub open spec fn is_single_page(&self) -> bool {
        &&& !self.has_next_page
        &&& !self.has_previous_page
        &&& self.start_cursor@ == Seq::<char>::empty()
        &&& self.end_cursor@ == Seq::<char>::empty()
    }

    /// The page information of a connection delivered whole.
    pub fn single_page() -> (r: PageInfo)
        ensures
            r.is_single_page(),
    {
        PageInfo {
            has_next_page: false,
            has_previous_page: false,
            start_cursor: String::new(),
            end_cursor: String::new(),
        }
    }
}

} // verus!
