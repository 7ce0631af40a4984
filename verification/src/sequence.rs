use vstd::prelude::*;

verus! {

/// A shrinkable value representing a logical sequence of ordered steps.
///
/// Shrinking truncates, and growing back re-extends, the sequence at its
/// end only, so the order of steps — and the property that the current
/// value is a prefix of the initial one — is always preserved.
#[derive(Debug)]
pub struct SequenceValueTree<Element> {
    pub initial_sequence: Vec<Element>,
    pub current_length: usize,
}

impl<Element> SequenceValueTree<Element> {
    /// The current length never exceeds the initial sequence.
    pub open spec fn wf(&self) -> bool {
        self.current_length <= self.initial_sequence@.len()
    }

    /// Captures the whole sequence; shrinking starts from its full length.
    pub fn new(initial_sequence: Vec<Element>) -> (r: SequenceValueTree<Element>)
        ensures
            r.wf(),
            r.initial_sequence@ == initial_sequence@,
            r.current_length == initial_sequence@.len(),
    {
        let init_len = initial_sequence.len();
        SequenceValueTree { initial_sequence, current_length: init_len }
    }

    /// The current value: the prefix of the initial sequence at the current
    /// length, as clones of its elements.
    pub fn current(&self) -> (r: Vec<Element>) where Element: Clone
        requires
            self.wf(),
        ensures
            r@.len() == self.current_length,
            forall|i: int|
                0 <= i < self.current_length ==> cloned::<Element>(
                    self.initial_sequence@[i],
                    #[trigger] r@[i],
                ),
    {
        let n = self.current_length;
        let mut r: Vec<Element> = Vec::new();
        let mut i: usize = 0;
        while i < n
            invariant
                i <= n,
                self.wf(),
                n == self.current_length,
                r@.len() == i,
                forall|k: int|
                    0 <= k < i ==> cloned::<Element>(
                        self.initial_sequence@[k],
                        #[trigger] r@[k],
                    ),
            decreases n - i,
        {
            r.push(self.initial_sequence[i].clone());
            i = i + 1;
        }
        r
    }

    /// Halves the current length; reports whether shrinking was possible.
    pub fn simplify(&mut self) -> (r: bool)
        ensures
            final(self).initial_sequence == old(self).initial_sequence,
            r == (old(self).current_length > 0),
            final(self).current_length == (if old(self).current_length > 0 {
                old(self).current_length / 2
            } else {
                old(self).current_length
            }),
    {
        if self.current_length > 0 {
            self.current_length = self.current_length / 2;
            true
        } else {
            false
        }
    }

    /// Grows the current length back by one step; reports whether growing
    /// was possible.
    pub fn complicate(&mut self) -> (r: bool)
        requires
            old(self).wf(),
        ensures
            final(self).wf(),
            final(self).initial_sequence == old(self).initial_sequence,
            r == (old(self).current_length < old(self).initial_sequence@.len()),
            final(self).current_length == (if old(self).current_length < old(
                self,
            ).initial_sequence@.len() {
                old(self).current_length + 1
            } else {
                old(self).current_length as int
            }),
    {
        if self.current_length < self.initial_sequence.len() {
            self.current_length = self.current_length + 1;
            true
        } else {
            false
        }
    }
}

} // verus!
