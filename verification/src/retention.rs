//! Retention of segment files: the files on disk form a queue, oldest first,
//! and the oldest are handed out for deletion once the queue grows beyond its
//! window.

use crate::window::{dropped, excess, kept, texts};
use vstd::prelude::*;

verus! {

/// Puts `path` behind the newest file of `queue`, then takes the oldest files
/// out until at most `window` are left, and returns those taken out, oldest
/// first: they are the files to delete. A window of zero is unbounded and
/// gives nothing to delete.
pub fn retain(queue: &mut Vec<String>, path: String, window: usize) -> (to_delete: Vec<String>)
    ensures
        texts(final(queue)@) == kept(texts(old(queue)@).push(path@), window as nat),
        texts(to_delete@) == dropped(texts(old(queue)@).push(path@), window as nat),
{
    queue.push(path);
    let ghost all = queue@;
    assert(texts(all) =~= texts(old(queue)@).push(path@));
    let mut to_delete: Vec<String> = Vec::new();
    if window > 0 {
        while queue.len() > window
            invariant
                window > 0,
                to_delete@.len() + queue@.len() == all.len(),
                to_delete@.len() <= excess(all.len(), window as nat),
                queue@ == all.subrange(to_delete@.len() as int, all.len() as int),
                to_delete@ == all.subrange(0, to_delete@.len() as int),
            decreases queue@.len(),
        {
            let oldest = queue.remove(0);
            to_delete.push(oldest);
            assert(queue@ =~= all.subrange(to_delete@.len() as int, all.len() as int));
            assert(to_delete@ =~= all.subrange(0, to_delete@.len() as int));
        }
    }
    assert(texts(queue@) =~= kept(texts(all), window as nat));
    assert(texts(to_delete@) =~= dropped(texts(all), window as nat));
    to_delete
}

} // verus!
