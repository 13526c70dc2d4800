//! The persisted session state: current chapter and its word count.
use vstd::prelude::*;

verus! {

pub fn default_current_chapter() -> (r: u32)
    ensures
        r == 1,
{
    1
}

#[derive(Debug, PartialEq, Eq, Structural, Clone, Copy)]
pub struct InkState {
    /// Chapter being written, from 1.
    pub current_chapter: u32,
    pub current_chapter_word_count: u32,
}

/// A stored state whose chapter number is below 1.
#[derive(Debug, PartialEq, Eq, Structural, Clone, Copy)]
pub struct StateError {
    pub current_chapter: u32,
}

impl Default for InkState {
    fn default() -> (r: InkState)
        ensures
            r.current_chapter == 1,
            r.current_chapter_word_count == 0,
    {
        InkState { current_chapter: default_current_chapter(), current_chapter_word_count: 0 }
    }
}

impl InkState {
    pub open spec fn valid(&self) -> bool {
        self.current_chapter >= 1
    }

    /// The state after moving on to the next chapter: its word count starts
    /// at 0; `None` when there is no next chapter number.
    pub fn advanced(&self) -> (r: Option<InkState>)
        ensures
            self.current_chapter < u32::MAX ==> r == Some(
                InkState { current_chapter: (self.current_chapter + 1) as u32, current_chapter_word_count: 0 },
            ),
            self.current_chapter == u32::MAX ==> r is None,
    {
        if self.current_chapter < u32::MAX {
            Some(InkState { current_chapter: self.current_chapter + 1, current_chapter_word_count: 0 })
        } else {
            None
        }
    }

    pub fn validate(&self) -> (r: Result<(), StateError>)
        ensures
            r is Ok <==> self.valid(),
            r is Err ==> r->Err_0.current_chapter == self.current_chapter,
    {
        if self.current_chapter < 1 {
            Err(StateError { current_chapter: self.current_chapter })
        } else {
            Ok(())
        }
    }
}

} // verus!
