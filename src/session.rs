use vstd::prelude::*;

use crate::event::{DomainEvent, MediaInfo};

verus! {

/// Whether an update stamped `stamp` goes through after one stamped `last`:
/// an update that repeats the last delivered stamp is a duplicate.
pub open spec fn admits(last: Option<i64>, stamp: Option<i64>) -> bool {
    match stamp {
        Some(t) => last != Some(t),
        None => true,
    }
}

/// The last delivered stamp once an update stamped `stamp` has been seen.
pub open spec fn stamp_after(last: Option<i64>, stamp: Option<i64>) -> Option<i64> {
    match stamp {
        Some(t) => Some(t),
        None => last,
    }
}

/// The state one media session keeps to drop repeated updates.
pub struct MediaSession {
    pub last_updated: Option<i64>,
}

impl MediaSession {
    pub fn new() -> (r: Self)
        ensures
            r.last_updated == None::<i64>,
    {
        MediaSession { last_updated: None }
    }

    /// Decides whether an update with "last updated" stamp `stamp` goes
    /// through, and remembers the stamp.
    pub fn accept(&mut self, stamp: Option<i64>) -> (r: bool)
        ensures
            r == admits(old(self).last_updated, stamp),
            final(self).last_updated == stamp_after(old(self).last_updated, stamp),
    {
        match stamp {
            Some(t) => {
                let fresh = match self.last_updated {
                    Some(last) => last != t,
                    None => true,
                };
                self.last_updated = Some(t);
                fresh
            },
            None => true,
        }
    }

    /// Turns a media-properties notification into the event to enqueue, if
    /// any: none for a duplicate stamp or when no media is described. Only a
    /// delivered update's stamp is remembered.
    pub fn on_media(&mut self, stamp: Option<i64>, media: Option<MediaInfo>) -> (r: Option<
        DomainEvent,
    >)
        ensures
            r == (if admits(old(self).last_updated, stamp) && media is Some {
                Some(DomainEvent::MediaUpdate(media->Some_0))
            } else {
                None
            }),
            final(self).last_updated == if r is Some {
                stamp_after(old(self).last_updated, stamp)
            } else {
                old(self).last_updated
            },
    {
        match media {
            Some(m) => {
                if self.accept(stamp) {
                    Some(DomainEvent::MediaUpdate(m))
                } else {
                    None
                }
            },
            None => None,
        }
    }
}

/// Of two updates in a row with the same stamp, the second never goes
/// through, so at most one of them is enqueued.
pub proof fn lemma_duplicate_suppressed(last: Option<i64>, t: i64)
    ensures
        !admits(stamp_after(last, Some(t)), Some(t)),
{
}

} // verus!
