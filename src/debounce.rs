use vstd::prelude::*;

verus! {

/// A change notification of the asset store, correlated to a handle.
#[derive(Clone, Copy, Debug, PartialEq, Eq, Structural)]
pub enum AssetEvent {
    Created(usize),
    Modified(usize),
    Removed(usize),
}

/// Number of `Modified` notifications in `events`.
pub open spec fn count_modified(events: Seq<AssetEvent>) -> nat
    decreases events.len(),
{
    if events.len() == 0 {
        0
    } else {
        count_modified(events.drop_last()) + if events.last() is Modified {
            1nat
        } else {
            0nat
        }
    }
}

/// Walks `events` in order with the skip flag set to `flag`: a `Modified`
/// notification met while the flag is set clears it and is discounted; any
/// other `Modified` is a real change. Gives the flag afterwards and the number
/// of real changes.
pub open spec fn scan(flag: bool, events: Seq<AssetEvent>) -> (bool, nat)
    decreases events.len(),
{
    if events.len() == 0 {
        (flag, 0)
    } else {
        let (f, n) = scan(flag, events.drop_last());
        if events.last() is Modified {
            if f {
                (false, n)
            } else {
                (f, n + 1)
            }
        } else {
            (f, n)
        }
    }
}

/// One-shot suppression token of a hot-reloadable definition kind: set exactly
/// while this core authored the next pending notification of that kind.
#[derive(Clone, Copy, Debug, PartialEq, Eq, Structural)]
pub struct SkipFlag {
    pub pending: bool,
}

impl SkipFlag {
    pub fn new() -> (r: SkipFlag)
        ensures
            !r.pending,
    {
        SkipFlag { pending: false }
    }

    /// Drains one tick's notifications; true when at least one of them is a
    /// real change. A set flag is consumed by the first `Modified` it meets.
    pub fn filter(&mut self, events: &Vec<AssetEvent>) -> (r: bool)
        ensures
            final(self).pending == scan(old(self).pending, events@).0,
            r == (scan(old(self).pending, events@).1 > 0),
    {
        let mut has_update = false;
        let mut i: usize = 0;
        assert(events@.take(0) =~= Seq::<AssetEvent>::empty());
        while i < events.len()
            invariant
                0 <= i <= events.len(),
                self.pending == scan(old(self).pending, events@.take(i as int)).0,
                has_update == (scan(old(self).pending, events@.take(i as int)).1 > 0),
            decreases events.len() - i,
        {
            assert(events@.take(i as int + 1).drop_last() =~= events@.take(i as int));
            match events[i] {
                AssetEvent::Modified(_) => {
                    if self.pending {
                        self.pending = false;
                    } else {
                        has_update = true;
                    }
                },
                _ => {},
            }
            i = i + 1;
        }
        assert(events@.take(events.len() as int) =~= events@);
        has_update
    }

    /// Sets the token: called immediately before a re-apply whose own write
    /// back will raise exactly one notification of this kind.
    pub fn arm(&mut self)
        ensures
            final(self).pending,
    {
        self.pending = true;
    }
}

/// What a tick does with the flag: whether it re-applies, and the flag after
/// it (armed once whenever it re-applies, however many real edits came in).
pub open spec fn debounce_tick(flag: bool, events: Seq<AssetEvent>) -> (bool, bool) {
    let (f, n) = scan(flag, events);
    if n > 0 {
        (true, true)
    } else {
        (false, f)
    }
}

/// The scan in closed form: a set flag swallows exactly the first `Modified`
/// notification, and every other one is a real change.
pub proof fn lemma_scan_closed_form(flag: bool, events: Seq<AssetEvent>)
    ensures
        flag && count_modified(events) > 0 ==> scan(flag, events) == (
            false,
            (count_modified(events) - 1) as nat,
        ),
        flag && count_modified(events) == 0 ==> scan(flag, events) == (true, 0nat),
        !flag ==> scan(flag, events) == (false, count_modified(events)),
    decreases events.len(),
{
    if events.len() > 0 {
        lemma_scan_closed_form(flag, events.drop_last());
    }
}

/// A tick with real edits re-applies once and arms the flag once, whatever the
/// number of edits; the next tick then discounts exactly one `Modified`
/// notification, its own write back, and counts every other as real.
pub proof fn lemma_self_write_discounted(
    flag: bool,
    first: Seq<AssetEvent>,
    second: Seq<AssetEvent>,
)
    requires
        count_modified(first) > 0,
        !flag,
        count_modified(second) > 0,
    ensures
        scan(flag, first).1 == count_modified(first),
        debounce_tick(flag, first) == (true, true),
        scan(true, second) == (false, (count_modified(second) - 1) as nat),
        scan(flag, first).1 + scan(true, second).1 == count_modified(first) + count_modified(
            second,
        ) - 1,
{
    lemma_scan_closed_form(flag, first);
    lemma_scan_closed_form(true, second);
}

} // verus!
