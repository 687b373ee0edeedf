//! The decoded DoH reply: a status code and an ordered list of answers,
//! and the reduction of a reply to its first IPv4-bearing answer.

use vstd::prelude::*;
use crate::ipv4::is_ipv4;
use crate::ipv4::is_ipv4_literal;

verus! {

/// One answer record of a DoH reply: the (possibly aliased) hostname and
/// its data, which is either an IPv4 literal or another hostname.
pub struct Hosts {
    pub name: String,
    pub data: String,
}

/// One decoded DoH reply.
pub struct Resp {
    pub status: u32,
    pub answer: Vec<Hosts>,
}

/// An address paired with the hostname it resolves: one line of the output.
pub struct HostRecord {
    pub address: String,
    pub hostname: String,
}

/// The first index at or after `i` whose answer data is an IPv4 literal.
pub open spec fn first_match(answers: Seq<Hosts>, i: int) -> Option<int>
    decreases answers.len() - i,
{
    if 0 <= i < answers.len() {
        if is_ipv4(answers[i].data@) {
            Some(i)
        } else {
            first_match(answers, i + 1)
        }
    } else {
        None
    }
}

/// There is no IPv4 literal among the answers at or after `i` exactly when
/// the scan reports exhaustion.
pub proof fn lemma_first_match_none(answers: Seq<Hosts>, i: int)
    requires
        0 <= i <= answers.len(),
    ensures
        first_match(answers, i) is None <==> (forall|k: int|
            i <= k < answers.len() ==> !is_ipv4(#[trigger] answers[k].data@)),
    decreases answers.len() - i,
{
    if i < answers.len() {
        lemma_first_match_none(answers, i + 1);
    }
}

/// What the scan finds is the first IPv4 literal in answer order.
pub proof fn lemma_first_match_is_first(answers: Seq<Hosts>, i: int, k: int)
    requires
        0 <= i <= answers.len(),
        first_match(answers, i) == Some(k),
    ensures
        i <= k < answers.len(),
        is_ipv4(answers[k].data@),
        forall|j: int| i <= j < k ==> !is_ipv4(#[trigger] answers[j].data@),
    decreases answers.len() - i,
{
    if i < answers.len() && !is_ipv4(answers[i].data@) {
        lemma_first_match_is_first(answers, i + 1, k);
    }
}

impl Resp {
    /// Scan the answers in order, skipping entries whose data is not an
    /// IPv4 literal, and pair the first address found with the name of the
    /// first answer (the originally queried hostname). Reports `None`
    /// exactly when no answer carries an IPv4 literal.
    pub fn first_ipv4(&self) -> (r: Option<HostRecord>)
        ensures
            match r {
                Some(rec) => {
                    &&& first_match(self.answer@, 0) matches Some(k) && rec.address@
                        == self.answer@[k].data@
                    &&& self.answer@.len() > 0
                    &&& rec.hostname@ == self.answer@[0].name@
                },
                None => first_match(self.answer@, 0) is None,
            },
    {
        if self.answer.len() == 0 {
            return None;
        }
        let mut i: usize = 0;
        while i < self.answer.len()
            invariant
                0 <= i <= self.answer@.len(),
                first_match(self.answer@, 0) == first_match(self.answer@, i as int),
            decreases self.answer@.len() - i,
        {
            if is_ipv4_literal(self.answer[i].data.as_str()) {
                return Some(
                    HostRecord {
                        address: self.answer[i].data.clone(),
                        hostname: self.answer[0].name.clone(),
                    },
                );
            }
            i = i + 1;
        }
        None
    }
}

} // verus!
