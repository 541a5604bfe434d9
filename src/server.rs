//! The decisions of the server responder: the head it commits, and the
//! error it reports to the host when a handler fails.

use vstd::prelude::*;
use crate::body::{hint_of_groups, BodyHint, FieldPairs};
use crate::decimal::{decimal_bytes, format_u64, lemma_decimal_bytes_digits, lemma_parse_decimal_round_trip, is_digit};
use crate::headers::{
    append_spec,
    content_length_name,
    field_name_spec,
    field_value_valid,
    fields_stop,
    lemma_fields_stop_small,
    MAX_FIELD_NAMES,
    flatten,
    get_spec,
    group_index,
    groups_of_pairs,
    header_groups,
    header_map_to_fields,
    groups_wf,
    is_token_byte,
    lemma_first_refused_append,
    lemma_flatten_ok,
    lemma_groups_of_flatten,
    lower_byte,
    pair_ok,
    pairs_view,
    FieldGroup,
};

verus! {

/// The name of the `Content-Length` field, as bytes.
fn content_length_name_bytes() -> (r: Vec<u8>)
    ensures
        r@ == content_length_name(),
{
    let r = vec![0x63u8, 0x6f, 0x6e, 0x74, 0x65, 0x6e, 0x74, 0x2d, 0x6c, 0x65, 0x6e, 0x67, 0x74, 0x68];
    assert(r@ =~= content_length_name());
    r
}

/// The fields of a response head that tells `content_length`.
pub open spec fn head_spec(g: Seq<FieldGroup>, content_length: Option<u64>) -> Seq<(Seq<u8>, Seq<u8>)> {
    flatten(g) + match content_length {
        Some(n) => seq![(content_length_name(), decimal_bytes(n as nat))],
        None => Seq::empty(),
    }
}

/// The header fields a response commits: those of its header map, in order,
/// then a `Content-Length` field where the body's length is known.
pub fn response_fields(headers: &http::HeaderMap, content_length: Option<u64>) -> (r: FieldPairs)
    ensures
        pairs_view(r@) == head_spec(header_groups(*headers), content_length),
{
    let mut fields = header_map_to_fields(headers);
    let ghost before = fields@;
    match content_length {
        Some(len) => {
            let name = content_length_name_bytes();
            let value = format_u64(len);
            fields.push((name, value));
            assert(pairs_view(fields@) =~= pairs_view(before).push((name@, value@)));
        },
        None => {
            assert(pairs_view(fields@) =~= pairs_view(before) + Seq::empty());
        },
    }
    fields
}

/// What a failing handler reports to the host.
#[derive(Debug)]
pub enum FailReason {
    /// The host error code found in the handler's error.
    Forward(wasip2::http::types::ErrorCode),
    /// An internal error, described by the handler error's debug text.
    Internal(String),
}

/// The report for a failed handler: the host error code its error carries,
/// if any, else an internal error with the error's description.
pub fn fail_reason(found: Option<wasip2::http::types::ErrorCode>, description: String) -> (r: FailReason)
    ensures
        found.is_some() ==> r == FailReason::Forward(found.unwrap()),
        found.is_none() ==> r == FailReason::Internal(description),
{
    match found {
        Some(code) => FailReason::Forward(code),
        None => FailReason::Internal(description),
    }
}

/// Where a response stands: its head not yet sent, its head sent and its
/// body being streamed, or done.
#[derive(Clone, Copy, Debug, PartialEq, Eq, Structural)]
pub enum ResponsePhase {
    Uncommitted,
    Committed,
    Finished,
}

/// An action on a response.
#[derive(Clone, Copy, Debug, PartialEq, Eq, Structural)]
pub enum ResponseAction {
    /// Commit the head (sets the host's response slot).
    Respond,
    /// The body has been sent.
    BodySent,
    /// Report a failure (sets the host's response slot).
    Fail,
}

/// One step of a response: the next phase, and whether the action is
/// permitted (and, for `Respond` and `Fail`, sets the host's slot).
pub open spec fn response_step(p: ResponsePhase, a: ResponseAction) -> (ResponsePhase, bool) {
    match (p, a) {
        (ResponsePhase::Uncommitted, ResponseAction::Respond) => (ResponsePhase::Committed, true),
        (ResponsePhase::Uncommitted, ResponseAction::Fail) => (ResponsePhase::Finished, true),
        (ResponsePhase::Committed, ResponseAction::BodySent) => (ResponsePhase::Finished, true),
        _ => (p, false),
    }
}

/// The lifecycle of a server response: the host's response slot is set
/// once, by committing the head or by reporting a failure.
#[derive(Clone, Copy, Debug, PartialEq, Eq, Structural)]
pub struct ResponseLifecycle {
    pub phase: ResponsePhase,
}

impl ResponseLifecycle {
    pub fn new() -> (r: ResponseLifecycle)
        ensures
            r.phase == ResponsePhase::Uncommitted,
    {
        ResponseLifecycle { phase: ResponsePhase::Uncommitted }
    }

    /// Takes an action; `false` where it is not permitted in this phase,
    /// a programming error the caller reports by panicking.
    pub fn step(&mut self, a: ResponseAction) -> (ok: bool)
        ensures
            (final(self).phase, ok) == response_step(old(self).phase, a),
    {
        match (self.phase, a) {
            (ResponsePhase::Uncommitted, ResponseAction::Respond) => {
                self.phase = ResponsePhase::Committed;
                true
            },
            (ResponsePhase::Uncommitted, ResponseAction::Fail) => {
                self.phase = ResponsePhase::Finished;
                true
            },
            (ResponsePhase::Committed, ResponseAction::BodySent) => {
                self.phase = ResponsePhase::Finished;
                true
            },
            _ => false,
        }
    }
}

/// How many permitted actions of a run set the host's response slot.
pub open spec fn slot_sets(p: ResponsePhase, actions: Seq<ResponseAction>) -> nat
    decreases actions.len(),
{
    if actions.len() == 0 {
        0
    } else {
        let (next, ok) = response_step(p, actions[0]);
        let here: nat = if ok && actions[0] != ResponseAction::BodySent { 1 } else { 0 };
        here + slot_sets(next, actions.subrange(1, actions.len() as int))
    }
}

proof fn lemma_no_sets_after_commit(p: ResponsePhase, actions: Seq<ResponseAction>)
    requires
        p != ResponsePhase::Uncommitted,
    ensures
        slot_sets(p, actions) == 0,
    decreases actions.len(),
{
    if actions.len() > 0 {
        let (next, ok) = response_step(p, actions[0]);
        lemma_no_sets_after_commit(next, actions.subrange(1, actions.len() as int));
    }
}

/// The host's response slot is set at most once, whatever a responder is
/// asked to do: after the head is committed or a failure reported, no
/// further `Respond` or `Fail` is permitted.
pub proof fn lemma_slot_set_once(actions: Seq<ResponseAction>)
    ensures
        slot_sets(ResponsePhase::Uncommitted, actions) <= 1,
    decreases actions.len(),
{
    if actions.len() > 0 {
        let tail = actions.subrange(1, actions.len() as int);
        let (next, ok) = response_step(ResponsePhase::Uncommitted, actions[0]);
        if next == ResponsePhase::Uncommitted {
            lemma_slot_set_once(tail);
        } else {
            lemma_no_sets_after_commit(next, tail);
        }
    }
}

proof fn lemma_content_length_name_normal()
    ensures
        field_name_spec(content_length_name()) == Some(content_length_name()),
{
    let c = content_length_name();
    assert forall|i: int| 0 <= i < c.len() implies #[trigger] is_token_byte(c[i]) by {}
    assert(c.map_values(|b: u8| lower_byte(b)) =~= c);
}

/// The `Content-Length` a server adds to a response head is the one a
/// receiver reads back: where a header map (with room for one more name)
/// has no `Content-Length` of its own, the head committed for a body of known length `n` is taken whole
/// into a header map, and that map gives the hint `ContentLength(n)`, so
/// the receiving body reports `n` as its length.
pub proof fn lemma_content_length_hint(headers: http::HeaderMap, n: u64)
    requires
        groups_wf(header_groups(headers)),
        header_groups(headers).len() + 1 < MAX_FIELD_NAMES,
        group_index(header_groups(headers), content_length_name()) < 0,
    ensures
        fields_stop(head_spec(header_groups(headers), Some(n))) < 0,
        hint_of_groups(groups_of_pairs(head_spec(header_groups(headers), Some(n))))
            == Ok::<BodyHint, crate::body::InvalidContentLength>(BodyHint::ContentLength(n)),
        BodyHint::ContentLength(n).content_length_spec() == Some(n),
{
    let g = header_groups(headers);
    let f = flatten(g);
    let cl = content_length_name();
    let d = decimal_bytes(n as nat);
    let p = head_spec(g, Some(n));
    assert(p =~= f + seq![(cl, d)]);
    lemma_content_length_name_normal();
    lemma_decimal_bytes_digits(n as nat);
    assert(field_value_valid(d)) by {
        assert forall|i: int| 0 <= i < d.len() implies ((#[trigger] d[i] >= 32 && d[i] != 127) || d[i] == 9) by {
            assert(is_digit(d[i]));
        }
    }
    lemma_flatten_ok(g);
    assert(pair_ok(seq![(cl, d)][0]));
    lemma_first_refused_append(f, seq![(cl, d)]);
    lemma_groups_of_flatten(g);
    assert(p.drop_last() =~= f);
    assert(groups_of_pairs(p) == append_spec(g, cl, d));
    assert(groups_of_pairs(p) == g.push((cl, seq![d])));
    assert(group_index(g.push((cl, seq![d])), cl) == g.len()) by {
        assert(g.push((cl, seq![d])).drop_last() =~= g);
    }
    assert(get_spec(groups_of_pairs(p), cl) == Some(d));
    lemma_fields_stop_small(p);
    lemma_parse_decimal_round_trip(n);
}

} // verus!
