//! A gap buffer: one growable array of characters with a movable run of unused
//! slots (the gap) at the current edit point.
use vstd::prelude::*;

verus! {

/// Slots added to the gap whenever an insertion fills it up.
pub const GAP_SIZE: usize = 10;

/// What every slot inside the gap holds.
pub const GAP_FILLER: char = ' ';

/// The characters of `buf` outside the gap `[gs, ge)`.
pub open spec fn outside_gap(buf: Seq<char>, gs: int, ge: int) -> Seq<char> {
    buf.subrange(0, gs) + buf.subrange(ge, buf.len() as int)
}

/// Every slot of `buf` in `[gs, ge)` holds the filler.
pub open spec fn gap_is_filler(buf: Seq<char>, gs: int, ge: int) -> bool {
    forall|i: int| gs <= i < ge ==> #[trigger] buf[i] == GAP_FILLER
}

/// `s` with `t` put in at offset `at`.
pub open spec fn spliced(s: Seq<char>, at: int, t: Seq<char>) -> Seq<char> {
    s.subrange(0, at) + t + s.subrange(at, s.len() as int)
}

pub struct GapBuffer {
    buffer: Vec<char>,
    gap_start: usize,
    gap_end: usize,
    /// Characters shifted across the gap by all moves of it so far.
    shifted: Ghost<nat>,
}

impl View for GapBuffer {
    type V = Seq<char>;

    /// The logical content: the array with the gap cut out.
    closed spec fn view(&self) -> Seq<char> {
        outside_gap(self.buffer@, self.gap_start as int, self.gap_end as int)
    }
}

impl GapBuffer {
    /// The gap lies inside the array and holds only filler.
    pub closed spec fn wf(&self) -> bool {
        &&& self.gap_start <= self.gap_end <= self.buffer@.len()
        &&& gap_is_filler(self.buffer@, self.gap_start as int, self.gap_end as int)
    }

    /// Number of slots of the underlying array.
    pub closed spec fn capacity(&self) -> nat {
        self.buffer@.len()
    }

    /// The offset at which the gap currently stands: the edit point.
    pub closed spec fn edit_point(&self) -> nat {
        self.gap_start as nat
    }

    /// Characters shifted across the gap by all moves of it so far.
    pub closed spec fn relocation_work(&self) -> nat {
        self.shifted@
    }

    /// How many characters a move of the gap to `index` shifts across it.
    pub open spec fn relocation_cost(&self, index: int) -> nat {
        if index >= self.edit_point() {
            (index - self.edit_point()) as nat
        } else {
            (self.edit_point() - index) as nat
        }
    }

    proof fn lemma_len(&self)
        requires
            self.wf(),
        ensures
            self@.len() == self.buffer@.len() - (self.gap_end - self.gap_start),
            self.gap_start <= self@.len() <= self.capacity(),
    {
    }

    /// An empty buffer whose gap covers the whole initial array.
    pub fn new() -> (r: GapBuffer)
        ensures
            r.wf(),
            r@ == Seq::<char>::empty(),
            r.capacity() == GAP_SIZE,
            r.relocation_work() == 0,
    {
        let r = GapBuffer { buffer: vec![GAP_FILLER; GAP_SIZE], gap_start: 0, gap_end: GAP_SIZE, shifted: Ghost(0) };
        assert(r@ =~= Seq::<char>::empty());
        r
    }

    /// Number of characters of content.
    pub fn len(&self) -> (r: usize)
        requires
            self.wf(),
        ensures
            r == self@.len(),
    {
        proof {
            self.lemma_len();
        }
        self.buffer.len() - (self.gap_end - self.gap_start)
    }

    /// The character at offset `index` of the content.
    pub fn at(&self, index: usize) -> (r: char)
        requires
            self.wf(),
            index < self@.len(),
        ensures
            r == self@[index as int],
    {
        let cap = self.buffer.len();
        proof {
            self.lemma_len();
        }
        if index < self.gap_start {
            self.buffer[index]
        } else {
            self.buffer[index + (self.gap_end - self.gap_start)]
        }
    }

    /// Whether `n` more characters, and a fresh gap after them, fit in the
    /// address space.
    pub fn room_for(&self, n: usize) -> (r: bool)
        ensures
            r == (self.capacity() + n + GAP_SIZE <= usize::MAX),
    {
        let cap = self.buffer.len();
        cap <= usize::MAX - GAP_SIZE && n <= usize::MAX - GAP_SIZE - cap
    }

    /// The content as a vector of characters.
    pub fn to_vec(&self) -> (r: Vec<char>)
        requires
            self.wf(),
        ensures
            r@ == self@,
    {
        let mut v: Vec<char> = Vec::new();
        let mut i: usize = 0;
        while i < self.gap_start
            invariant
                self.wf(),
                i <= self.gap_start,
                v@ == self.buffer@.subrange(0, i as int),
            decreases self.gap_start - i,
        {
            v.push(self.buffer[i]);
            i = i + 1;
            assert(v@ =~= self.buffer@.subrange(0, i as int));
        }
        let mut j: usize = self.gap_end;
        while j < self.buffer.len()
            invariant
                self.wf(),
                self.gap_end <= j <= self.buffer@.len(),
                v@ == self.buffer@.subrange(0, self.gap_start as int) + self.buffer@.subrange(
                    self.gap_end as int,
                    j as int,
                ),
            decreases self.buffer@.len() - j,
        {
            v.push(self.buffer[j]);
            j = j + 1;
            assert(v@ =~= self.buffer@.subrange(0, self.gap_start as int) + self.buffer@.subrange(
                self.gap_end as int,
                j as int,
            ));
        }
        v
    }
    /// Moves the gap so that it starts at `index`, shifting the characters
    /// between the old and the new position across it.
    fn move_gap(&mut self, index: usize)
        requires
            old(self).wf(),
            index <= old(self)@.len(),
        ensures
            final(self).wf(),
            final(self)@ == old(self)@,
            final(self).edit_point() == index,
            final(self).capacity() == old(self).capacity(),
            final(self).relocation_work() == old(self).relocation_work() + old(self).relocation_cost(
                index as int,
            ),
    {
        let cap = self.buffer.len();
        proof {
            self.lemma_len();
        }
        if self.gap_start == self.gap_end {
            // An empty gap moves without shifting anything.
            self.shifted = Ghost(self.shifted@ + self.relocation_cost(index as int));
            self.gap_start = index;
            self.gap_end = index;
            proof {
                assert(self@ =~= old(self)@);
            }
            return;
        }
        while self.gap_start < index
            invariant
                self.wf(),
                self@ == old(self)@,
                self.gap_end - self.gap_start == old(self).gap_end - old(self).gap_start,
                self.gap_start < self.gap_end,
                self.buffer@.len() == old(self).buffer@.len(),
                self.buffer@.len() == cap,
                index <= self@.len(),
                old(self).gap_start <= self.gap_start,
                old(self).gap_start <= index ==> self.gap_start <= index,
                old(self).gap_start >= index ==> self.gap_start == old(self).gap_start,
                self.shifted@ == old(self).shifted@ + (self.gap_start - old(self).gap_start),
            decreases index - self.gap_start,
        {
            proof {
                self.lemma_len();
            }
            let ghost b0 = self.buffer@;
            let gs = self.gap_start;
            let ge = self.gap_end;
            let c = self.buffer[ge];
            self.buffer.set(gs, c);
            self.buffer.set(ge, GAP_FILLER);
            self.gap_start = gs + 1;
            self.gap_end = ge + 1;
            self.shifted = Ghost(self.shifted@ + 1);
            proof {
                let b1 = self.buffer@;
                assert(b1.subrange(0, gs + 1) =~= b0.subrange(0, gs as int).push(b0[ge as int]));
                assert(b1.subrange(ge + 1, b1.len() as int) =~= b0.subrange(ge + 1, b0.len() as int));
                assert(b0.subrange(ge as int, b0.len() as int) =~= seq![b0[ge as int]] + b0.subrange(ge + 1, b0.len() as int));
                assert(self@ =~= outside_gap(b0, gs as int, ge as int));
            }
        }
        while self.gap_start > index
            invariant
                self.wf(),
                self@ == old(self)@,
                self.gap_end - self.gap_start == old(self).gap_end - old(self).gap_start,
                self.gap_start < self.gap_end,
                self.buffer@.len() == old(self).buffer@.len(),
                index <= self.gap_start,
                old(self).gap_start >= index ==> self.gap_start <= old(self).gap_start
                    && self.shifted@ == old(self).shifted@ + (old(self).gap_start - self.gap_start),
                old(self).gap_start < index ==> self.gap_start == index && self.shifted@ == old(
                    self,
                ).shifted@ + (index - old(self).gap_start),
            decreases self.gap_start - index,
        {
            let ghost b0 = self.buffer@;
            let gs = self.gap_start - 1;
            let ge = self.gap_end - 1;
            let c = self.buffer[gs];
            self.buffer.set(ge, c);
            self.buffer.set(gs, GAP_FILLER);
            self.gap_start = gs;
            self.gap_end = ge;
            self.shifted = Ghost((self.shifted@ + 1) as nat);
            proof {
                let b1 = self.buffer@;
                assert(b0.subrange(0, gs + 1) =~= b1.subrange(0, gs as int).push(b0[gs as int]));
                assert(b1.subrange(ge as int, b1.len() as int) =~= seq![b0[gs as int]] + b0.subrange(ge + 1, b0.len() as int));
                assert(self@ =~= outside_gap(b0, gs + 1, ge + 1));
            }
        }
    }

    /// Widens the gap by `amount` filler slots, keeping the content.
    fn grow_gap(&mut self, amount: usize)
        requires
            old(self).wf(),
            old(self).capacity() + amount <= usize::MAX,
        ensures
            final(self).wf(),
            final(self)@ == old(self)@,
            final(self).edit_point() == old(self).edit_point(),
            final(self).gap_end - final(self).gap_start == old(self).gap_end - old(self).gap_start
                + amount,
            final(self).capacity() == old(self).capacity() + amount,
            final(self).relocation_work() == old(self).relocation_work(),
            final(self).buffer@.subrange(0, final(self).gap_start as int) == old(self).buffer@.subrange(
                0,
                old(self).gap_start as int,
            ),
            final(self).buffer@.subrange(final(self).gap_end as int, final(self).capacity() as int)
                == old(self).buffer@.subrange(old(self).gap_end as int, old(self).capacity() as int),
    {
        let gs = self.gap_start;
        let ge = self.gap_end;
        let old_len = self.buffer.len();
        let mut grown: Vec<char> = Vec::new();
        let mut i: usize = 0;
        while i < ge
            invariant
                self.wf(),
                i <= ge,
                gs == self.gap_start,
                ge == self.gap_end,
                grown@ == self.buffer@.subrange(0, i as int),
            decreases ge - i,
        {
            grown.push(self.buffer[i]);
            i = i + 1;
            assert(grown@ =~= self.buffer@.subrange(0, i as int));
        }
        let mut k: usize = 0;
        while k < amount
            invariant
                self.wf(),
                k <= amount,
                gs == self.gap_start,
                ge == self.gap_end,
                old_len == self.buffer@.len(),
                old_len + amount <= usize::MAX,
                grown@ == self.buffer@.subrange(0, ge as int) + Seq::new(k as nat, |j: int| GAP_FILLER),
            decreases amount - k,
        {
            grown.push(GAP_FILLER);
            k = k + 1;
            assert(grown@ =~= self.buffer@.subrange(0, ge as int) + Seq::new(k as nat, |j: int| GAP_FILLER));
        }
        let mut j: usize = ge;
        while j < old_len
            invariant
                self.wf(),
                ge <= j <= old_len,
                gs == self.gap_start,
                ge == self.gap_end,
                old_len == self.buffer@.len(),
                old_len + amount <= usize::MAX,
                grown@ == self.buffer@.subrange(0, ge as int) + Seq::new(amount as nat, |j: int| GAP_FILLER)
                    + self.buffer@.subrange(ge as int, j as int),
            decreases old_len - j,
        {
            grown.push(self.buffer[j]);
            j = j + 1;
            assert(grown@ =~= self.buffer@.subrange(0, ge as int) + Seq::new(amount as nat, |j: int| GAP_FILLER)
                    + self.buffer@.subrange(ge as int, j as int));
        }
        let ghost b0 = self.buffer@;
        self.buffer = grown;
        self.gap_end = ge + amount;
        proof {
            let b1 = self.buffer@;
            assert(b1.subrange(0, gs as int) =~= b0.subrange(0, gs as int));
            assert(b1.subrange(ge + amount, b1.len() as int) =~= b0.subrange(ge as int, b0.len() as int));
            assert forall|p: int| gs <= p < ge + amount implies #[trigger] b1[p] == GAP_FILLER by {
                if p < ge {
                    assert(b1[p] == b0[p]);
                }
            }
        }
    }

    /// Puts the characters of `text` in at offset `index`.
    pub fn insert_chars(&mut self, text: &Vec<char>, index: usize)
        requires
            old(self).wf(),
            index <= old(self)@.len(),
            old(self).capacity() + text@.len() + GAP_SIZE <= usize::MAX,
        ensures
            final(self).wf(),
            final(self)@ == spliced(old(self)@, index as int, text@),
            final(self).edit_point() == index + text@.len(),
            final(self).relocation_work() == old(self).relocation_work() + old(self).relocation_cost(
                index as int,
            ),
            final(self).capacity() <= old(self).capacity() + text@.len() + GAP_SIZE,
    {
        proof {
            self.lemma_len();
        }
        self.move_gap(index);
        proof {
            lemma_concat_split(
                self.buffer@.subrange(0, self.gap_start as int),
                self.buffer@.subrange(self.gap_end as int, self.buffer@.len() as int),
                old(self)@,
            );
        }
        let mut i: usize = 0;
        while i < text.len()
            invariant
                self.wf(),
                i <= text@.len(),
                self.gap_start == index + i,
                index <= old(self)@.len() <= old(self).capacity(),
                self.shifted@ == old(self).relocation_work() + old(self).relocation_cost(index as int),
                self@ == spliced(old(self)@, index as int, text@.subrange(0, i as int)),
                self.buffer@.subrange(0, self.gap_start as int) == old(self)@.subrange(0, index as int)
                    + text@.subrange(0, i as int),
                self.buffer@.subrange(self.gap_end as int, self.buffer@.len() as int) == old(
                    self,
                )@.subrange(index as int, old(self)@.len() as int),
                self.buffer@.len() <= old(self).capacity() + i + GAP_SIZE,
                self.buffer@.len() - (self.gap_end - self.gap_start) == old(self)@.len() + i,
                old(self).capacity() + text@.len() + GAP_SIZE <= usize::MAX,
            decreases text@.len() - i,
        {
            if self.gap_start == self.gap_end {
                self.grow_gap(GAP_SIZE);
            }
            let ghost b0 = self.buffer@;
            let gs = self.gap_start;
            self.buffer.set(gs, text[i]);
            self.gap_start = gs + 1;
            i = i + 1;
            proof {
                let b1 = self.buffer@;
                assert(b1.subrange(0, gs + 1) =~= b0.subrange(0, gs as int).push(text@[i - 1]));
                assert(old(self)@.subrange(0, index as int) + text@.subrange(0, i as int) =~= (old(
                    self,
                )@.subrange(0, index as int) + text@.subrange(0, i - 1)).push(text@[i - 1]));
                assert(b1.subrange(self.gap_end as int, b1.len() as int) =~= b0.subrange(
                    self.gap_end as int,
                    b0.len() as int,
                ));
                assert(text@.subrange(0, i as int) =~= text@.subrange(0, i - 1).push(text@[i - 1]));
                assert(self@ =~= spliced(old(self)@, index as int, text@.subrange(0, i as int)));
            }
        }
        assert(text@.subrange(0, i as int) =~= text@);
    }

    /// Puts the characters of `text` in at offset `index`.
    pub fn insert(&mut self, text: &str, index: usize)
        requires
            old(self).wf(),
            index <= old(self)@.len(),
            old(self).capacity() + text@.len() + GAP_SIZE <= usize::MAX,
        ensures
            final(self).wf(),
            final(self)@ == spliced(old(self)@, index as int, text@),
            final(self).edit_point() == index + text@.len(),
            final(self).relocation_work() == old(self).relocation_work() + old(self).relocation_cost(
                index as int,
            ),
            final(self).capacity() <= old(self).capacity() + text@.len() + GAP_SIZE,
    {
        let chars = chars_of(text);
        self.insert_chars(&chars, index);
    }

    /// Puts the single character `chr` in at offset `index`.
    pub fn insert_char(&mut self, chr: char, index: usize)
        requires
            old(self).wf(),
            index <= old(self)@.len(),
            old(self).capacity() + 1 + GAP_SIZE <= usize::MAX,
        ensures
            final(self).wf(),
            final(self)@ == old(self)@.insert(index as int, chr),
            final(self).edit_point() == index + 1,
            final(self).relocation_work() == old(self).relocation_work() + old(self).relocation_cost(
                index as int,
            ),
            final(self).capacity() <= old(self).capacity() + 1 + GAP_SIZE,
    {
        let one = vec![chr];
        self.insert_chars(&one, index);
        assert(spliced(old(self)@, index as int, one@) =~= old(self)@.insert(index as int, chr));
    }

    /// Removes the character at offset `index`; the gap then starts there.
    pub fn delete_char(&mut self, index: usize)
        requires
            old(self).wf(),
            index < old(self)@.len(),
        ensures
            final(self).wf(),
            final(self)@ == old(self)@.remove(index as int),
            final(self).edit_point() == index,
            final(self).capacity() == old(self).capacity(),
            final(self).relocation_work() == old(self).relocation_work() + old(self).relocation_cost(
                index + 1,
            ),
    {
        let n = self.len();
        self.move_gap(index + 1);
        let ghost b0 = self.buffer@;
        let gs = self.gap_start - 1;
        self.buffer.set(gs, GAP_FILLER);
        self.gap_start = gs;
        proof {
            let b1 = self.buffer@;
            assert(b0.subrange(0, gs + 1) =~= b1.subrange(0, gs as int).push(b0[gs as int]));
            assert(b1.subrange(self.gap_end as int, b1.len() as int) =~= b0.subrange(self.gap_end as int, b0.len() as int));
            assert(self@ =~= old(self)@.remove(index as int));
        }
    }

    /// The content as a string.
    pub fn to_string(&self) -> (r: String)
        requires
            self.wf(),
        ensures
            r@ == self@,
    {
        let v = self.to_vec();
        string_of(&v)
    }
}

/// Typing a run of characters, each one just after the one before, shifts no
/// more content across the gap than the first move of the gap to the run's
/// start: the relocation work of the whole run does not grow with its length.
/// `states[k + 1]` is the buffer after the `k`-th insertion, made at offset
/// `start + k`, as `GapBuffer::insert_char` describes it.
pub proof fn lemma_typing_run_relocation(states: Seq<GapBuffer>, start: int)
    requires
        states.len() >= 1,
        forall|k: int|
            0 <= k < states.len() - 1 ==> {
                &&& #[trigger] states[k + 1].relocation_work() == states[k].relocation_work()
                    + states[k].relocation_cost(start + k)
                &&& states[k + 1].edit_point() == start + k + 1
            },
    ensures
        states.last().relocation_work() <= states[0].relocation_work() + states[0].relocation_cost(
            start,
        ),
    decreases states.len(),
{
    if states.len() > 1 {
        let prefix = states.drop_last();
        assert forall|k: int| 0 <= k < prefix.len() - 1 implies {
            &&& #[trigger] prefix[k + 1].relocation_work() == prefix[k].relocation_work()
                + prefix[k].relocation_cost(start + k)
            &&& prefix[k + 1].edit_point() == start + k + 1
        } by {
            assert(prefix[k + 1] == states[k + 1]);
            assert(prefix[k] == states[k]);
        }
        lemma_typing_run_relocation(prefix, start);
        let m = states.len() - 2;
        assert(states[m + 1].relocation_work() == states[m].relocation_work()
            + states[m].relocation_cost(start + m));
        if m >= 1 {
            let j = m - 1;
            assert(states[j + 1].edit_point() == start + j + 1);
        }
    }
}

/// A concatenation splits back into its two parts.
proof fn lemma_concat_split(a: Seq<char>, b: Seq<char>, s: Seq<char>)
    requires
        a + b == s,
    ensures
        a == s.subrange(0, a.len() as int),
        b == s.subrange(a.len() as int, s.len() as int),
{
    assert(a =~= s.subrange(0, a.len() as int));
    assert(b =~= s.subrange(a.len() as int, s.len() as int));
}

/// Relies on `str::chars` collected into a `Vec`: the characters of the string, in order.
#[verifier::external_body]
pub(crate) fn chars_of(s: &str) -> (r: Vec<char>)
    ensures
        r@ == s@,
{
    s.chars().collect()
}

/// Relies on `String: FromIterator<&char>`: the string made of the given characters, in order.
#[verifier::external_body]
pub(crate) fn string_of(chars: &Vec<char>) -> (r: String)
    ensures
        r@ == chars@,
{
    chars.iter().collect()
}

} // verus!
