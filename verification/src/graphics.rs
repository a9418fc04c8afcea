//! What the client decides before it draws: which replicated entities are
//! new to it, and what its status line says.

use vstd::prelude::*;

verus! {

/// The entities that `current` holds and `previous` did not, in the order
/// of `current`.
pub open spec fn newly_observed(previous: Seq<u64>, current: Seq<u64>) -> Seq<u64> {
    current.filter(|entity: u64| !previous.contains(entity))
}

/// The decimal digit for a number below ten.
pub open spec fn digit(value: nat) -> char
    recommends
        value < 10,
{
    seq!['0', '1', '2', '3', '4', '5', '6', '7', '8', '9'][value as int]
}

/// A number written in decimal, without leading zeros.
pub open spec fn decimal(value: nat) -> Seq<char>
    decreases value,
{
    if value < 10 {
        seq![digit(value)]
    } else {
        decimal(value / 10).push(digit(value % 10))
    }
}

/// The status line of a client with the given identifier.
pub open spec fn label_of(client_id: u64) -> Seq<char> {
    "Client: "@ + decimal(client_id as nat)
}

/// Writes a text followed by a number with `format!`.
///
/// Trusted: a `&str` is written as it stands, and `u64` as its decimal
/// digits without sign, padding or leading zeros.
#[verifier::external_body]
fn text_and_number(text: &str, number: u64) -> (line: String)
    ensures
        line@ == text@ + decimal(number as nat),
{
    format!("{}{}", text, number)
}

/// The text of the status line that names the local client.
pub fn client_label(client_id: u64) -> (label: String)
    ensures
        label@ == label_of(client_id),
{
    text_and_number("Client: ", client_id)
}

/// Whether `entity` is among `entities`.
fn seen(entities: &Vec<u64>, entity: u64) -> (found: bool)
    ensures
        found == entities@.contains(entity),
{
    let mut i: usize = 0;
    while i < entities.len()
        invariant
            i <= entities.len(),
            forall|j: int| 0 <= j < i ==> entities@[j] != entity,
        decreases entities.len() - i,
    {
        if entities[i] == entity {
            return true;
        }
        i += 1;
    }
    false
}

/// The replicated entities of one kind that already have their visible
/// object. An entity is given its object when it is first observed and
/// never again while it stays.
pub struct Materialized {
    pub entities: Vec<u64>,
}

impl Materialized {
    /// Nothing has been observed yet.
    pub fn new() -> (tracker: Materialized)
        ensures
            tracker.entities@.len() == 0,
    {
        Materialized { entities: Vec::new() }
    }

    /// Takes this frame's entities and reports those that were not there in
    /// the last frame: the ones that now need a visible object. The frame
    /// becomes what the next one is held against.
    pub fn observe(&mut self, current: Vec<u64>) -> (fresh: Vec<u64>)
        ensures
            fresh@ == newly_observed(old(self).entities@, current@),
            final(self).entities@ == current@,
    {
        let ghost unseen = |entity: u64| !self.entities@.contains(entity);
        let mut fresh: Vec<u64> = Vec::new();
        let mut i: usize = 0;
        proof {
            assert(current@.take(0) =~= Seq::empty());
            reveal(Seq::filter);
        }
        while i < current.len()
            invariant
                i <= current.len(),
                self.entities@ == old(self).entities@,
                unseen == |entity: u64| !old(self).entities@.contains(entity),
                fresh@ == current@.take(i as int).filter(unseen),
            decreases current.len() - i,
        {
            proof {
                assert(current@.take(i + 1) =~= current@.take(i as int).push(current@[i as int]));
                current@.take(i as int).lemma_filter_push(current@[i as int], unseen);
            }
            if !seen(&self.entities, current[i]) {
                fresh.push(current[i]);
            }
            i += 1;
        }
        proof {
            assert(current@.take(i as int) =~= current@);
        }
        self.entities = current;
        fresh
    }
}

/// An entity is reported as new exactly when this frame holds it and the
/// last one did not; looking twice at the same frame reports nothing the
/// second time, so nothing is drawn twice.
pub proof fn second_look_finds_nothing_new(previous: Seq<u64>, current: Seq<u64>)
    ensures
        forall|entity: u64|
            newly_observed(previous, current).contains(entity) <==> (current.contains(entity)
                && !previous.contains(entity)),
        newly_observed(current, current) == Seq::<u64>::empty(),
{
    let unseen = |entity: u64| !previous.contains(entity);
    assert forall|entity: u64|
        newly_observed(previous, current).contains(entity) <==> (current.contains(entity)
            && !previous.contains(entity)) by {
        membership_in_filter(current, unseen, entity);
    }
    none_unseen(current, current.len() as int);
    assert(current.take(current.len() as int) =~= current);
}

/// What a filter keeps is what the sequence holds and the filter passes.
proof fn membership_in_filter(s: Seq<u64>, pred: spec_fn(u64) -> bool, entity: u64)
    ensures
        s.filter(pred).contains(entity) <==> (s.contains(entity) && pred(entity)),
    decreases s.len(),
{
    reveal(Seq::filter);
    if s.len() > 0 {
        membership_in_filter(s.drop_last(), pred, entity);
        let rest = s.drop_last().filter(pred);
        if s.contains(entity) && pred(entity) {
            let i = choose|i: int| 0 <= i < s.len() && s[i] == entity;
            if i == s.len() - 1 {
                assert(s.filter(pred).last() == entity);
            } else {
                assert(s.drop_last()[i] == entity);
                let k = choose|k: int| 0 <= k < rest.len() && rest[k] == entity;
                assert(s.filter(pred)[k] == entity);
            }
        }
        if s.filter(pred).contains(entity) {
            let k = choose|k: int| 0 <= k < s.filter(pred).len() && s.filter(pred)[k] == entity;
            if k < rest.len() {
                assert(rest[k] == entity);
                let i = choose|i: int| 0 <= i < s.drop_last().len() && s.drop_last()[i] == entity;
                assert(s[i] == entity);
            } else {
                assert(s[s.len() - 1] == entity);
            }
        }
    }
}

/// Held against itself, no part of a frame is new.
proof fn none_unseen(frame: Seq<u64>, n: int)
    requires
        0 <= n <= frame.len(),
    ensures
        frame.take(n).filter(|entity: u64| !frame.contains(entity)) == Seq::<u64>::empty(),
    decreases n,
{
    reveal(Seq::filter);
    let unseen = |entity: u64| !frame.contains(entity);
    if n > 0 {
        none_unseen(frame, n - 1);
        assert(frame.take(n) =~= frame.take(n - 1).push(frame[n - 1]));
        frame.take(n - 1).lemma_filter_push(frame[n - 1], unseen);
        assert(frame.contains(frame[n - 1]));
    } else {
        assert(frame.take(0) =~= Seq::empty());
    }
}

} // verus!
