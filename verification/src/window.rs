//! Sliding windows over lists that grow at the end: a window keeps the
//! newest items of a list and drops the oldest, first in, first out.

use vstd::prelude::*;

verus! {

/// The contents of a sequence of strings, in the same order.
pub open spec fn texts(strings: Seq<String>) -> Seq<Seq<char>> {
    Seq::new(strings.len(), |i: int| strings[i]@)
}

/// How many items a list of `len` items has beyond `window`. A window of
/// zero is unbounded: nothing is ever beyond it.
pub open spec fn excess(len: nat, window: nat) -> nat {
    if window > 0 && len > window {
        (len - window) as nat
    } else {
        0
    }
}

/// What a window keeps of a list: its newest `window` items, in order.
pub open spec fn kept<T>(items: Seq<T>, window: nat) -> Seq<T> {
    items.subrange(excess(items.len(), window) as int, items.len() as int)
}

/// What a window drops of a list: its oldest items beyond the window, oldest
/// first.
pub open spec fn dropped<T>(items: Seq<T>, window: nat) -> Seq<T> {
    items.subrange(0, excess(items.len(), window) as int)
}

/// Whether `short` is the end of `long`.
pub open spec fn is_suffix<T>(short: Seq<T>, long: Seq<T>) -> bool {
    &&& short.len() <= long.len()
    &&& long.subrange(long.len() - short.len(), long.len() as int) == short
}

/// What a window keeps of a list is the end of that list.
pub proof fn lemma_kept_is_suffix<T>(items: Seq<T>, window: nat)
    ensures
        is_suffix(kept(items, window), items),
{
}

/// The end of a list stays its end when the same item is put behind both.
pub proof fn lemma_suffix_push<T>(short: Seq<T>, long: Seq<T>, item: T)
    requires
        is_suffix(short, long),
    ensures
        is_suffix(short.push(item), long.push(item)),
{
    let from = long.len() - short.len();
    assert(long.push(item).subrange(from, (long.len() + 1) as int) =~= long.subrange(
        from,
        long.len() as int,
    ).push(item));
}

/// The end of the end of a list is an end of that list.
pub proof fn lemma_suffix_of_suffix<T>(short: Seq<T>, middle: Seq<T>, long: Seq<T>)
    requires
        is_suffix(short, middle),
        is_suffix(middle, long),
    ensures
        is_suffix(short, long),
{
    let a = middle.len() - short.len();
    let b = long.len() - middle.len();
    assert(long.subrange(a + b, long.len() as int) =~= long.subrange(
        b,
        long.len() as int,
    ).subrange(a, middle.len() as int));
}

/// Of two ends of one list, the shorter is the end of the longer.
pub proof fn lemma_suffixes_of_one_list<T>(first: Seq<T>, second: Seq<T>, long: Seq<T>)
    requires
        is_suffix(first, long),
        is_suffix(second, long),
        first.len() <= second.len(),
    ensures
        is_suffix(first, second),
{
    let a = long.len() - first.len();
    let b = long.len() - second.len();
    assert(long.subrange(b, long.len() as int).subrange(a - b, second.len() as int)
        =~= long.subrange(a, long.len() as int));
}

/// A window drops the oldest items and keeps the rest in their order: what
/// it drops, followed by what it keeps, is the list as it was. Where the
/// window is not zero it keeps no more than the window holds, and it drops
/// nothing from a list that fits.
pub proof fn lemma_window_is_first_in_first_out<T>(items: Seq<T>, window: nat)
    ensures
        dropped(items, window) + kept(items, window) == items,
        window > 0 ==> kept(items, window).len() <= window,
        window == 0 || items.len() <= window ==> kept(items, window) == items,
        window > 0 && items.len() > window ==> kept(items, window).len() == window,
{
    assert(dropped(items, window) + kept(items, window) =~= items);
    assert(window == 0 || items.len() <= window ==> kept(items, window) =~= items);
}

} // verus!
