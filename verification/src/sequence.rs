//! The two ends of a sequence.
//!
//! Taking an element from an empty container is no error: it gives `None`
//! and changes nothing. These functions say so once, for every container.

use vstd::prelude::*;

verus! {

/// The first of `items`, if there is one.
pub open spec fn first<T>(items: Seq<T>) -> Option<T> {
    if items.len() == 0 {
        None
    } else {
        Some(items[0])
    }
}

/// `items` without the first one; nothing changes where there is none.
pub open spec fn without_first<T>(items: Seq<T>) -> Seq<T> {
    if items.len() == 0 {
        items
    } else {
        items.skip(1)
    }
}

/// The last of `items`, if there is one.
pub open spec fn last<T>(items: Seq<T>) -> Option<T> {
    if items.len() == 0 {
        None
    } else {
        Some(items[items.len() - 1])
    }
}

/// `items` without the last one; nothing changes where there is none.
pub open spec fn without_last<T>(items: Seq<T>) -> Seq<T> {
    if items.len() == 0 {
        items
    } else {
        items.take(items.len() - 1)
    }
}

} // verus!
