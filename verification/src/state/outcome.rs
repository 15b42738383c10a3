//! One outcome of a market.
use crate::constants::MAX_NAME_LEN;
use crate::state::identity::Identity;
use vstd::prelude::*;

verus! {

/// An outcome that traders can hold shares of.
#[derive(Clone, Debug)]
pub struct Outcome {
    /// Display name, at most `MAX_NAME_LEN` bytes.
    pub name: String,
    /// Shares minted and not yet burnt: the quantity that prices depend on.
    pub total_shares: u64,
    /// The ledger's token that stands for a share of this outcome.
    pub mint: Identity,
}

/// An outcome as a mathematical value.
pub struct OutcomeView {
    pub name: Seq<char>,
    pub total_shares: u64,
    pub mint: Identity,
}

impl View for Outcome {
    type V = OutcomeView;

    open spec fn view(&self) -> OutcomeView {
        OutcomeView { name: self.name@, total_shares: self.total_shares, mint: self.mint }
    }
}

/// Length in bytes of a text in UTF-8.
pub open spec fn byte_len(text: Seq<char>) -> nat {
    vstd::utf8::encode_utf8(text).len()
}

/// Length of a text in bytes.
pub fn text_len(text: &String) -> (n: usize)
    ensures
        n == byte_len(text@),
{
    text.as_str().as_bytes().len()
}

impl OutcomeView {
    /// The name fits its bound.
    pub open spec fn wf(self) -> bool {
        byte_len(self.name) <= MAX_NAME_LEN
    }
}

/// The views of a vector of outcomes, in order.
pub open spec fn outcome_views(outcomes: Seq<Outcome>) -> Seq<OutcomeView> {
    Seq::new(outcomes.len(), |j: int| outcomes[j]@)
}

/// The outstanding shares of each outcome, in order.
pub open spec fn share_totals(outcomes: Seq<OutcomeView>) -> Seq<u64> {
    Seq::new(outcomes.len(), |j: int| outcomes[j].total_shares)
}

/// Collects the outstanding shares of each outcome, in order.
pub fn share_vector(outcomes: &Vec<Outcome>) -> (q: Vec<u64>)
    ensures
        q@ == share_totals(outcome_views(outcomes@)),
{
    let mut q: Vec<u64> = Vec::new();
    let mut j: usize = 0;
    while j < outcomes.len()
        invariant
            j <= outcomes.len(),
            q@.len() == j,
            forall|k: int| 0 <= k < j ==> q@[k] == outcomes@[k].total_shares,
        decreases outcomes.len() - j,
    {
        q.push(outcomes[j].total_shares);
        j = j + 1;
    }
    proof {
        assert(q@ =~= share_totals(outcome_views(outcomes@)));
    }
    q
}

} // verus!
