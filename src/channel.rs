use vstd::prelude::*;

verus! {

/// The contents of a latest-value channel: the last value published, if
/// any, and how many publications it has seen (modulo 2^64).
pub struct ChannelView<T> {
    pub value: Option<T>,
    pub version: u64,
}

/// The version after one more publication.
pub open spec fn next_version(version: u64) -> u64 {
    if version == u64::MAX {
        0
    } else {
        (version + 1) as u64
    }
}

impl<T> ChannelView<T> {
    /// After `publish(v)`: the value is overwritten, the version moves on.
    pub open spec fn published(self, v: T) -> ChannelView<T> {
        ChannelView { value: Some(v), version: next_version(self.version) }
    }

    /// What a subscriber that last saw version `seen` observes: the current
    /// value if the version moved since, nothing otherwise.
    pub open spec fn observed(self, seen: u64) -> Option<Option<T>> {
        if seen != self.version {
            Some(self.value)
        } else {
            None
        }
    }
}

/// A subscriber's record of the last version it observed.
#[derive(Clone, Copy, Debug)]
pub struct Cursor {
    seen: u64,
}

impl Cursor {
    pub closed spec fn seen(&self) -> u64 {
        self.seen
    }
}

/// A single-slot broadcast cell: each publication overwrites the last, and
/// readers see only the most recent value.
pub struct LatestValue<T> {
    value: Option<T>,
    version: u64,
}

impl<T> View for LatestValue<T> {
    type V = ChannelView<T>;

    closed spec fn view(&self) -> ChannelView<T> {
        ChannelView { value: self.value, version: self.version }
    }
}

impl<T: Copy> LatestValue<T> {
    /// An empty channel.
    pub fn new() -> (r: LatestValue<T>)
        ensures
            r@.value is None,
            r@.version == 0,
    {
        LatestValue { value: None, version: 0 }
    }

    /// Overwrites the value, whatever was there and whoever has read it.
    pub fn publish(&mut self, v: T)
        ensures
            final(self)@ == old(self)@.published(v),
    {
        self.value = Some(v);
        self.version = if self.version == u64::MAX {
            0
        } else {
            self.version + 1
        };
    }

    /// The current value.
    pub fn borrow(&self) -> (r: Option<T>)
        ensures
            r == self@.value,
    {
        self.value
    }

    /// A subscriber that has seen everything published so far.
    pub fn subscribe(&self) -> (r: Cursor)
        ensures
            r.seen() == self@.version,
    {
        Cursor { seen: self.version }
    }

    /// The current value, if it changed since the subscriber last observed
    /// the channel; the subscriber then has observed it.
    pub fn poll_change(&self, cursor: &mut Cursor) -> (r: Option<Option<T>>)
        ensures
            r == self@.observed(old(cursor).seen()),
            final(cursor).seen() == self@.version,
    {
        if cursor.seen != self.version {
            cursor.seen = self.version;
            Some(self.value)
        } else {
            None
        }
    }
}

/// Two publications before a subscriber looks: it observes the second value,
/// never the first.
pub proof fn lemma_conflation<T>(s: ChannelView<T>, seen: u64, v1: T, v2: T)
    requires
        seen == s.version,
    ensures
        s.published(v1).published(v2).observed(seen) == Some(Some(v2)),
{
}

} // verus!
