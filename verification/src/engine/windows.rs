use vstd::prelude::*;

use crate::error::{NeuclidioError, RenderError, WindowingError};
use std::collections::HashSet;

verus! {

broadcast use vstd::std_specs::hash::group_hash_axioms;

/// The error for a window that is not open.
pub open spec fn window_not_found<T>() -> Result<T, NeuclidioError> {
    Err(NeuclidioError::RenderError(RenderError::WindowingError(WindowingError::WindowNotFound)))
}

/// The title a new window gets: winit's placeholder title "winit window" becomes
/// "Neuclidio Example"; any other title is kept.
pub fn window_title(title: String) -> (r: String)
    ensures
        r@ == if title@ == "winit window"@ {
            "Neuclidio Example"@
        } else {
            title@
        },
{
    let placeholder = "winit window".to_owned();
    if title == placeholder {
        "Neuclidio Example".to_owned()
    } else {
        title
    }
}

/// The windows the event loop has open.
pub struct OpenWindows {
    windows: HashSet<u64>,
}

impl View for OpenWindows {
    type V = Set<u64>;

    closed spec fn view(&self) -> Set<u64> {
        self.windows@
    }
}

impl OpenWindows {
    /// No window is open.
    pub fn new() -> (r: Self)
        ensures
            r@ == Set::<u64>::empty(),
    {
        OpenWindows { windows: HashSet::new() }
    }

    /// Whether a window is open.
    pub fn is_open(&self, window_id: u64) -> (r: bool)
        ensures
            r == self@.contains(window_id),
    {
        self.windows.contains(&window_id)
    }

    /// A window was created and is now open.
    pub fn open_window(&mut self, window_id: u64)
        ensures
            final(self)@ == old(self)@.insert(window_id),
    {
        self.windows.insert(window_id);
    }

    /// A window was resized: fine for an open window, `WindowNotFound` otherwise.
    pub fn resize_window(&self, window_id: u64) -> (r: Result<(), NeuclidioError>)
        ensures
            r == if self@.contains(window_id) {
                Ok(())
            } else {
                window_not_found()
            },
    {
        if self.windows.contains(&window_id) {
            Ok(())
        } else {
            Err(NeuclidioError::RenderError(RenderError::WindowingError(WindowingError::WindowNotFound)))
        }
    }

    /// Closes a window: an open window is closed, an unknown one fails with
    /// `WindowNotFound`, changing nothing.
    pub fn close_window(&mut self, window_id: u64) -> (r: Result<(), NeuclidioError>)
        ensures
            r == if old(self)@.contains(window_id) {
                Ok(())
            } else {
                window_not_found()
            },
            final(self)@ == old(self)@.remove(window_id),
    {
        if self.windows.remove(&window_id) {
            Ok(())
        } else {
            assert(old(self)@.remove(window_id) =~= old(self)@);
            Err(NeuclidioError::RenderError(RenderError::WindowingError(WindowingError::WindowNotFound)))
        }
    }

    /// The event loop exits: every open window is closed. Returns the closed windows.
    pub fn close_all(&mut self) -> (closed: HashSet<u64>)
        ensures
            final(self)@ == Set::<u64>::empty(),
            closed@ == old(self)@,
    {
        let mut closed: HashSet<u64> = HashSet::new();
        std::mem::swap(&mut closed, &mut self.windows);
        closed
    }
}

} // verus!
