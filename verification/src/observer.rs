//! What the browser is told while a turn runs: token usage, the plan step
//! in progress and the progress of a loop.
use vstd::prelude::*;

verus! {

/// Token counts reported to the browser.
pub struct BrowserUsageState {
    pub input_tokens: u64,
    pub output_tokens: u64,
    pub context_used_tokens: u64,
    pub context_window_tokens: u64,
}

/// `a + b`, or `u64::MAX` when that does not fit.
pub open spec fn saturating_add_spec(a: u64, b: u64) -> u64 {
    if a + b > u64::MAX { u64::MAX } else { (a + b) as u64 }
}

impl BrowserUsageState {
    /// The usage a session starts a turn with: its stored totals, no
    /// context information yet.
    pub fn new(input_tokens: u64, output_tokens: u64) -> (s: Self)
        ensures
            s.input_tokens == input_tokens,
            s.output_tokens == output_tokens,
            s.context_used_tokens == 0,
            s.context_window_tokens == 0,
    {
        BrowserUsageState { input_tokens, output_tokens, context_used_tokens: 0, context_window_tokens: 0 }
    }

    /// A completed turn reports the session's new totals.
    pub fn turn_completed(&mut self, input_tokens: u64, output_tokens: u64)
        ensures
            final(self).input_tokens == input_tokens,
            final(self).output_tokens == output_tokens,
            final(self).context_used_tokens == old(self).context_used_tokens,
            final(self).context_window_tokens == old(self).context_window_tokens,
    {
        self.input_tokens = input_tokens;
        self.output_tokens = output_tokens;
    }

    /// A context update reports how much of the window is in use.
    pub fn context_updated(&mut self, used_tokens: u64, context_window: u64)
        ensures
            final(self).input_tokens == old(self).input_tokens,
            final(self).output_tokens == old(self).output_tokens,
            final(self).context_used_tokens == used_tokens,
            final(self).context_window_tokens == context_window,
    {
        self.context_used_tokens = used_tokens;
        self.context_window_tokens = context_window;
    }

    /// Input and output tokens together (saturating).
    pub fn total_tokens(&self) -> (t: u64)
        ensures
            t == saturating_add_spec(self.input_tokens, self.output_tokens),
    {
        self.input_tokens.saturating_add(self.output_tokens)
    }
}

/// The 1-based number of the first plan step in progress, given for each
/// step whether it is in progress.
pub fn step_in_progress(in_progress: &Vec<bool>) -> (r: Option<usize>)
    ensures
        r is None <==> (forall|i: int| 0 <= i < in_progress@.len() ==> !(#[trigger] in_progress@[i])),
        r matches Some(n) ==> 1 <= n <= in_progress@.len() && in_progress@[n - 1]
            && forall|i: int| 0 <= i < n - 1 ==> !(#[trigger] in_progress@[i]),
{
    let mut i: usize = 0;
    while i < in_progress.len()
        invariant
            i <= in_progress@.len(),
            forall|k: int| 0 <= k < i ==> !(#[trigger] in_progress@[k]),
        decreases in_progress@.len() - i,
    {
        if in_progress[i] {
            return Some(i + 1);
        }
        i = i + 1;
    }
    None
}

/// A loop's progress: the turns completed so far, out of one more while
/// the loop is still active.
pub fn loop_progress(turns_completed: u64, active: bool) -> (r: (u64, u64))
    requires
        active ==> turns_completed < u64::MAX,
    ensures
        r.0 == turns_completed,
        r.1 == turns_completed + (if active { 1int } else { 0int }),
{
    (turns_completed, if active { turns_completed + 1 } else { turns_completed })
}

} // verus!
