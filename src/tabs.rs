//! Which tab of the progress view is selected.
use vstd::prelude::*;

verus! {

/// A row of tab titles and the index of the selected one.
pub struct TabsState<'a> {
    pub titles: Vec<&'a str>,
    pub index: usize,
}

impl<'a> TabsState<'a> {
    /// The selection points at an existing tab.
    pub open spec fn wf(&self) -> bool {
        self.index < self.titles.len()
    }

    pub fn new(titles: Vec<&'a str>) -> (r: Self)
        ensures
            r.titles@ == titles@,
            r.index == 0,
    {
        TabsState { titles, index: 0 }
    }

    /// Selects the tab to the right, wrapping to the first.
    pub fn next(&mut self)
        requires
            old(self).titles.len() > 0,
            old(self).index < usize::MAX,
        ensures
            final(self).titles@ == old(self).titles@,
            final(self).index == (old(self).index + 1) % (old(self).titles.len() as int),
            final(self).wf(),
    {
        self.index = (self.index + 1) % self.titles.len();
    }

    /// Selects the tab to the left, wrapping to the last.
    pub fn previous(&mut self)
        requires
            old(self).titles.len() > 0,
        ensures
            final(self).titles@ == old(self).titles@,
            final(self).index == if old(self).index > 0 {
                old(self).index - 1
            } else {
                old(self).titles.len() - 1
            },
    {
        if self.index > 0 {
            self.index -= 1;
        } else {
            self.index = self.titles.len() - 1;
        }
    }
}

} // verus!
