//! Watching the configuration file: what is saved applies at once.

use vstd::prelude::*;

verus! {

/// When the configuration file was last seen to be written, in nanoseconds.
pub struct ConfigWatch {
    pub seen: Option<u64>,
}

/// What is seen of a file that was written at `written`; a file that is not there leaves what was
/// seen before.
pub open spec fn seen_after(seen: Option<u64>, written: Option<u64>) -> Option<u64> {
    match written {
        Some(time) => Some(time),
        None => seen,
    }
}

/// Whether a look at the file shows that it was saved.
pub open spec fn saved(seen: Option<u64>, written: Option<u64>) -> bool {
    written is Some && written != seen
}

impl ConfigWatch {
    /// A watch over a file that was written at `written`, where it is there.
    pub fn new(written: Option<u64>) -> (watch: ConfigWatch)
        ensures
            watch.seen == written,
    {
        ConfigWatch { seen: written }
    }

    /// Whether the file was saved since the last look, and is to be read anew. `written` is when it
    /// was written, where it is there.
    pub fn look(&mut self, written: Option<u64>) -> (changed: bool)
        ensures
            changed == saved(old(self).seen, written),
            final(self).seen == seen_after(old(self).seen, written),
    {
        match written {
            Some(time) => {
                let changed = match self.seen {
                    Some(seen) => seen != time,
                    None => true,
                };
                self.seen = Some(time);
                changed
            },
            None => false,
        }
    }
}

/// A file that is saved is noticed at the next look, and once only: a file that is taken away for a
/// moment and put back unchanged is not noticed again.
pub proof fn noticed_once(seen: Option<u64>, time: u64)
    ensures
        seen != Some(time) ==> saved(seen, Some(time)),
        !saved(seen_after(seen, Some(time)), Some(time)),
        !saved(seen_after(seen_after(seen, Some(time)), None), Some(time)),
{
}

} // verus!
