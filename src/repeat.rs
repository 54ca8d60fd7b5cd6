//! Key repeat: a key held down fires once when pressed, then, after a start
//! delay, again at a fixed interval for as long as it stays down.
use vstd::prelude::*;

verus! {

/// Time from a key press to its first repeat, in microseconds.
pub const START_DELAY_MICROS: u64 = 400_000;

/// Time between two repeats, in microseconds.
pub const REPEAT_INTERVAL_MICROS: u64 = 30_000;

/// The one key being held, the character it produced, and how long it has
/// been held since its last firing; `K` is the caller's key type.
pub struct KeyRepeat<K> {
    held: Option<K>,
    held_char: Option<char>,
    timer: u64,
    start_delay: u64,
    interval: u64,
}

impl<K: Copy> KeyRepeat<K> {
    /// The key held, if any.
    pub closed spec fn held(&self) -> Option<K> {
        self.held
    }

    /// The character the held key produced, if any.
    pub closed spec fn held_char(&self) -> Option<char> {
        self.held_char
    }

    /// Time accumulated since the press, pinned back to the start delay at each repeat.
    pub closed spec fn timer(&self) -> nat {
        self.timer as nat
    }

    pub closed spec fn start_delay(&self) -> nat {
        self.start_delay as nat
    }

    pub closed spec fn interval(&self) -> nat {
        self.interval as nat
    }

    /// The timer value at which a held key fires again.
    pub open spec fn threshold(&self) -> nat {
        self.start_delay() + self.interval()
    }

    /// The two delays add up within `u64`.
    pub closed spec fn wf(&self) -> bool {
        self.start_delay + self.interval <= u64::MAX
    }

    /// A scheduler with no key held.
    pub fn new(start_delay: u64, interval: u64) -> (r: KeyRepeat<K>)
        requires
            start_delay + interval <= u64::MAX,
        ensures
            r.wf(),
            r.held() is None,
            r.start_delay() == start_delay,
            r.interval() == interval,
    {
        KeyRepeat { held: None, held_char: None, timer: 0, start_delay, interval }
    }

    /// The key held, if any.
    pub fn held_key(&self) -> (r: Option<K>)
        ensures
            r == self.held(),
    {
        self.held
    }

    /// A key-down edge: `key` becomes the only key held, with its timer at
    /// zero. The caller fires the key's command once, at once.
    pub fn press(&mut self, key: K, chr: Option<char>)
        requires
            old(self).wf(),
        ensures
            final(self).wf(),
            final(self).held() == Some(key),
            final(self).held_char() == chr,
            final(self).timer() == 0,
            final(self).start_delay() == old(self).start_delay(),
            final(self).interval() == old(self).interval(),
    {
        self.held = Some(key);
        self.held_char = chr;
        self.timer = 0;
    }

    /// A key-release edge: no key is held any more.
    pub fn release(&mut self)
        requires
            old(self).wf(),
        ensures
            final(self).wf(),
            final(self).held() is None,
            final(self).start_delay() == old(self).start_delay(),
            final(self).interval() == old(self).interval(),
    {
        self.held = None;
    }

    /// One tick of `elapsed` time. `still_down` says whether the held key is
    /// still down; if it is not, it is released. Returns the key and its
    /// character when the key fires again on this tick.
    pub fn tick(&mut self, still_down: bool, elapsed: u64) -> (r: Option<(K, Option<char>)>)
        requires
            old(self).wf(),
        ensures
            final(self).wf(),
            final(self).start_delay() == old(self).start_delay(),
            final(self).interval() == old(self).interval(),
            final(self).held_char() == old(self).held_char(),
            old(self).held() is None ==> r is None && *final(self) == *old(self),
            old(self).held() is Some && !still_down ==> r is None && final(self).held() is None,
            old(self).held() is Some && still_down ==> {
                let t = if old(self).timer() + elapsed > u64::MAX {
                    u64::MAX as nat
                } else {
                    (old(self).timer() + elapsed) as nat
                };
                &&& final(self).held() == old(self).held()
                &&& t >= old(self).threshold() ==> final(self).timer() == old(self).start_delay()
                    && r == Some((old(self).held()->0, old(self).held_char()))
                &&& t < old(self).threshold() ==> final(self).timer() == t && r is None
            },
    {
        match self.held {
            None => None,
            Some(key) => {
                if !still_down {
                    self.held = None;
                    return None;
                }
                self.timer = self.timer.saturating_add(elapsed);
                if self.timer >= self.start_delay + self.interval {
                    self.timer = self.start_delay;
                    Some((key, self.held_char))
                } else {
                    None
                }
            },
        }
    }
}

} // verus!
