//! Assembly of the whole output buffer: one formatted line, ended by a
//! newline, per reply, in reply order.

use vstd::prelude::*;
use vstd::string::StringExecFns;
use crate::format::format_host;
use crate::format::formatted_line;
use crate::format::pad_len;
use crate::format::spaces;
use crate::json::printable;
use crate::response::first_match;
use crate::response::Resp;

verus! {

/// Every reply holds at least one IPv4 answer, so the whole batch can be
/// rendered.
pub open spec fn all_resolvable(resps: Seq<Resp>) -> bool {
    forall|i: int| 0 <= i < resps.len() ==> first_match(#[trigger] resps[i].answer@, 0) is Some
}

/// The line a reply renders to: its first IPv4 answer's data, padded, then
/// the first answer's name, then a newline.
pub open spec fn line_of(resp: Resp) -> Seq<char> {
    formatted_line(
        resp.answer@[first_match(resp.answer@, 0)->Some_0].data@,
        resp.answer@[0].name@,
    ) + seq!['\n']
}

/// The whole buffer: the lines of all replies, in order.
pub open spec fn output_of(resps: Seq<Resp>) -> Seq<char>
    decreases resps.len(),
{
    if resps.len() == 0 {
        Seq::empty()
    } else {
        output_of(resps.drop_last()) + line_of(resps.last())
    }
}

/// Number of newline characters in `s`.
pub open spec fn newline_count(s: Seq<char>) -> int
    decreases s.len(),
{
    if s.len() == 0 {
        0
    } else {
        newline_count(s.drop_last()) + if s.last() == '\n' {
            1int
        } else {
            0int
        }
    }
}

/// No newline stands anywhere in `s`.
pub open spec fn has_no_newline(s: Seq<char>) -> bool {
    forall|t: int| 0 <= t < s.len() ==> s[t] != '\n'
}

/// The fields a reply renders do not bring a newline of their own.
pub open spec fn single_line_fields(resp: Resp) -> bool {
    first_match(resp.answer@, 0) matches Some(k) ==> has_no_newline(resp.answer@[k].data@)
        && has_no_newline(resp.answer@[0].name@)
}

/// A reply whose answers hold only printable characters — as every decoded
/// reply does — renders onto a single line.
pub proof fn lemma_printable_fields_single_line(resp: Resp)
    requires
        crate::json::answers_printable(resp.answer@),
    ensures
        single_line_fields(resp),
{
    if first_match(resp.answer@, 0) is Some {
        let k = first_match(resp.answer@, 0)->Some_0;
        crate::response::lemma_first_match_is_first(resp.answer@, 0, k);
        assert(printable(resp.answer@[k].name@) && printable(resp.answer@[k].data@));
        assert(printable(resp.answer@[0].name@) && printable(resp.answer@[0].data@));
        assert forall|t: int| 0 <= t < resp.answer@[k].data@.len() implies resp.answer@[k].data@[t]
            != '\n' by {
            assert(0x20 <= resp.answer@[k].data@[t] as u32);
        }
        assert forall|t: int| 0 <= t < resp.answer@[0].name@.len() implies resp.answer@[0].name@[t]
            != '\n' by {
            assert(0x20 <= resp.answer@[0].name@[t] as u32);
        }
    }
}

proof fn lemma_newline_count_concat(x: Seq<char>, y: Seq<char>)
    ensures
        newline_count(x + y) == newline_count(x) + newline_count(y),
    decreases y.len(),
{
    if y.len() == 0 {
        assert(x + y =~= x);
    } else {
        assert((x + y).drop_last() =~= x + y.drop_last());
        assert((x + y).last() == y.last());
        lemma_newline_count_concat(x, y.drop_last());
    }
}

proof fn lemma_no_newline_count(s: Seq<char>)
    requires
        has_no_newline(s),
    ensures
        newline_count(s) == 0,
    decreases s.len(),
{
    if s.len() > 0 {
        lemma_no_newline_count(s.drop_last());
    }
}

/// The buffer holds exactly one line per reply, in reply order: as many
/// newlines as replies, when no rendered field brings a newline of its
/// own (the decoder only ever yields such fields).
pub proof fn lemma_one_line_per_reply(resps: Seq<Resp>)
    requires
        forall|i: int| 0 <= i < resps.len() ==> single_line_fields(#[trigger] resps[i]),
        all_resolvable(resps),
    ensures
        newline_count(output_of(resps)) == resps.len(),
    decreases resps.len(),
{
    if resps.len() > 0 {
        let prefix = resps.drop_last();
        let last = resps.last();
        assert(forall|i: int| 0 <= i < prefix.len() ==> prefix[i] == resps[i]);
        lemma_one_line_per_reply(prefix);
        let k = first_match(last.answer@, 0)->Some_0;
        crate::response::lemma_first_match_is_first(last.answer@, 0, k);
        let addr = last.answer@[k].data@;
        let name = last.answer@[0].name@;
        let body = formatted_line(addr, name);
        lemma_newline_count_concat(output_of(prefix), line_of(last));
        lemma_newline_count_concat(body, seq!['\n']);
        lemma_newline_count_concat(addr, spaces(pad_len(addr.len())));
        lemma_newline_count_concat(addr + spaces(pad_len(addr.len())), name);
        lemma_no_newline_count(addr);
        lemma_no_newline_count(name);
        lemma_no_newline_count(spaces(pad_len(addr.len())));
        assert(newline_count(seq!['\n']) == 1) by {
            let nl = seq!['\n'];
            assert(nl.last() == '\n');
            assert(nl.drop_last() =~= Seq::<char>::empty());
            assert(newline_count(Seq::<char>::empty()) == 0);
            assert(newline_count(nl.drop_last()) == 0);
        };
    }
}

/// Render the batch of replies as the output buffer: exactly one line per
/// reply, in reply order. Fails, with nothing rendered, exactly when some
/// reply has no IPv4 answer.
pub fn build_hosts_output(resps: &Vec<Resp>) -> (r: Option<String>)
    ensures
        match r {
            Some(s) => all_resolvable(resps@) && s@ == output_of(resps@),
            None => !all_resolvable(resps@),
        },
{
    let mut out = String::new();
    let mut i: usize = 0;
    while i < resps.len()
        invariant
            0 <= i <= resps@.len(),
            out@ == output_of(resps@.take(i as int)),
            forall|j: int| 0 <= j < i ==> first_match(#[trigger] resps@[j].answer@, 0) is Some,
        decreases resps@.len() - i,
    {
        let rec = match resps[i].first_ipv4() {
            Some(rec) => rec,
            None => {
                return None;
            },
        };
        let line = format_host(rec.address.as_str(), rec.hostname.as_str());
        out.append(line.as_str());
        out.append("\n");
        proof {
            reveal_strlit("\n");
            assert("\n"@ =~= seq!['\n']);
            assert(resps@.take(i + 1).drop_last() =~= resps@.take(i as int));
            assert(resps@.take(i + 1).last() == resps@[i as int]);
            assert(out@ =~= output_of(resps@.take(i + 1)));
        }
        i = i + 1;
    }
    proof {
        assert(resps@.take(resps@.len() as int) =~= resps@);
    }
    Some(out)
}

} // verus!
