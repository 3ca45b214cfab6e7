//! Page-by-page accumulation of a poll cycle's fetch.
//!
//! The remote call itself happens outside; the library decides, after each
//! page, whether another must be requested, and accumulates the results. A
//! short page means the feed is exhausted; a hard cap on the page number
//! bounds the loop against a misbehaving or adversarial feed.

use vstd::prelude::*;

use crate::notification::Notification;

verus! {

/// Items requested per page.
pub const PAGE_SIZE: usize = 50;

/// Appends one fetched page to the batch and decides whether to request
/// another: the next page number when the page was full and the cap is not
/// reached, `None` when the fetch is complete.
pub fn fetch_step(all: &mut Vec<Notification>, page_items: Vec<Notification>, page: u8) -> (r:
    Option<u8>)
    ensures
        final(all)@ == old(all)@ + page_items@,
        r == (if page_items@.len() >= PAGE_SIZE && page < u8::MAX {
            Some((page + 1) as u8)
        } else {
            None::<u8>
        }),
{
    let full = page_items.len() >= PAGE_SIZE;
    let mut tail = page_items;
    all.append(&mut tail);
    if full && page < u8::MAX {
        Some(page + 1)
    } else {
        None
    }
}

} // verus!
