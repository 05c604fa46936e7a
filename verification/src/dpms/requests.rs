//! Display-power requests: collecting them per output, the power state they
//! stand for until applied, and how a batch splits into outputs to switch.

use vstd::prelude::*;
use std::collections::BTreeMap;

verus! {

broadcast use {vstd::laws_cmp::group_laws_cmp, vstd::std_specs::btree::group_btree_axioms};

/// The queued requests after recording `requests` in order: a later request
/// for an output replaces an earlier one.
pub open spec fn recorded(queued: Map<u32, bool>, requests: Seq<(u32, bool)>) -> Map<u32, bool>
    decreases requests.len(),
{
    if requests.len() == 0 {
        queued
    } else {
        recorded(queued, requests.drop_last()).insert(requests.last().0, requests.last().1)
    }
}

pub fn collect_output_power_requests(queued: &mut BTreeMap<u32, bool>, requests: &[(u32, bool)])
    ensures
        final(queued)@ == recorded(old(queued)@, requests@),
{
    let mut i: usize = 0;
    while i < requests.len()
        invariant
            i <= requests@.len(),
            queued@ == recorded(old(queued)@, requests@.take(i as int)),
        decreases requests@.len() - i,
    {
        proof {
            assert(requests@.take(i + 1).drop_last() =~= requests@.take(i as int));
            assert(requests@.take(i + 1).last() == requests@[i as int]);
        }
        let (output, powered) = requests[i];
        queued.insert(output, powered);
        i += 1;
    }
    assert(requests@.take(requests@.len() as int) =~= requests@);
}

/// The power state an output stands for: its queued request, else its
/// current state.
pub open spec fn spec_effective_power(queued: Map<u32, bool>, output: u32, current: bool) -> bool {
    if queued.contains_key(output) {
        queued[output]
    } else {
        current
    }
}

pub fn effective_power(queued: &BTreeMap<u32, bool>, output: u32, current: bool) -> (r: bool)
    ensures
        r == spec_effective_power(queued@, output, current),
{
    match queued.get(&output) {
        Some(powered) => *powered,
        None => current,
    }
}

/// A wake gesture wakes an output that is, or will be, off, and one whose
/// display a fingerprint contact holds.
pub fn gesture_wakes(powered: bool, fingerprint_exclusive: bool) -> (r: bool)
    ensures
        r == (!powered || fingerprint_exclusive),
{
    !powered || fingerprint_exclusive
}

/// How a batch of requests splits: outputs that no longer exist, requests
/// already in effect, and outputs to switch on or off with their index.
#[derive(Clone, Debug)]
pub struct PowerPlan {
    pub missing: Vec<u32>,
    pub settled: Vec<(u32, bool)>,
    pub power_on: Vec<(u32, usize)>,
    pub power_off: Vec<(u32, usize)>,
}

/// The plan as values.
pub struct PowerPlanModel {
    pub missing: Seq<u32>,
    pub settled: Seq<(u32, bool)>,
    pub power_on: Seq<(u32, usize)>,
    pub power_off: Seq<(u32, usize)>,
}

/// The index of the first output with identifier `output`.
pub open spec fn first_output(outputs: Seq<(u32, bool)>, output: u32) -> Option<int>
    decreases outputs.len(),
{
    if outputs.len() == 0 {
        None
    } else {
        match first_output(outputs.drop_last(), output) {
            Some(i) => Some(i),
            None => if outputs.last().0 == output {
                Some(outputs.len() - 1)
            } else {
                None
            },
        }
    }
}

/// The plan for `requests`, taken in order, over the outputs and their
/// current power states.
pub open spec fn spec_plan(requests: Seq<(u32, bool)>, outputs: Seq<(u32, bool)>) -> PowerPlanModel
    decreases requests.len(),
{
    if requests.len() == 0 {
        PowerPlanModel {
            missing: Seq::empty(),
            settled: Seq::empty(),
            power_on: Seq::empty(),
            power_off: Seq::empty(),
        }
    } else {
        let p = spec_plan(requests.drop_last(), outputs);
        let (output, powered) = requests.last();
        match first_output(outputs, output) {
            None => PowerPlanModel { missing: p.missing.push(output), ..p },
            Some(i) => if outputs[i].1 == powered {
                PowerPlanModel { settled: p.settled.push((output, powered)), ..p }
            } else if powered {
                PowerPlanModel { power_on: p.power_on.push((output, i as usize)), ..p }
            } else {
                PowerPlanModel { power_off: p.power_off.push((output, i as usize)), ..p }
            },
        }
    }
}

proof fn lemma_first_output_bounds(outputs: Seq<(u32, bool)>, output: u32)
    ensures
        first_output(outputs, output) matches Some(i) ==> 0 <= i < outputs.len() && outputs[i].0
            == output && forall|k: int| 0 <= k < i ==> outputs[k].0 != output,
        first_output(outputs, output) is None ==> forall|k: int|
            0 <= k < outputs.len() ==> outputs[k].0 != output,
    decreases outputs.len(),
{
    if outputs.len() > 0 {
        lemma_first_output_bounds(outputs.drop_last(), output);
        assert forall|k: int| 0 <= k < outputs.drop_last().len() implies outputs.drop_last()[k]
            == outputs[k] by {}
    }
}

fn find_output(outputs: &[(u32, bool)], output: u32) -> (r: Option<usize>)
    ensures
        match first_output(outputs@, output) {
            Some(i) => r == Some(i as usize),
            None => r is None,
        },
{
    let mut i: usize = 0;
    while i < outputs.len()
        invariant
            i <= outputs@.len(),
            forall|k: int| 0 <= k < i ==> outputs@[k].0 != output,
        decreases outputs@.len() - i,
    {
        if outputs[i].0 == output {
            proof {
                lemma_first_output_bounds(outputs@, output);
                match first_output(outputs@, output) {
                    Some(j) => {
                        assert(j == i);
                    },
                    None => {
                        assert(outputs@[i as int].0 == output);
                    },
                }
            }
            return Some(i);
        }
        i += 1;
    }
    proof {
        lemma_first_output_bounds(outputs@, output);
    }
    None
}

/// Splits a batch of requests over the outputs that exist now.
pub fn plan_power_requests(requests: &[(u32, bool)], outputs: &[(u32, bool)]) -> (r: PowerPlan)
    ensures
        ({
            let m = spec_plan(requests@, outputs@);
            &&& r.missing@ == m.missing
            &&& r.settled@ == m.settled
            &&& r.power_on@ == m.power_on
            &&& r.power_off@ == m.power_off
        }),
{
    let mut plan = PowerPlan {
        missing: Vec::new(),
        settled: Vec::new(),
        power_on: Vec::new(),
        power_off: Vec::new(),
    };
    let mut i: usize = 0;
    assert(requests@.take(0) =~= Seq::<(u32, bool)>::empty());
    while i < requests.len()
        invariant
            i <= requests@.len(),
            ({
                let m = spec_plan(requests@.take(i as int), outputs@);
                &&& plan.missing@ == m.missing
                &&& plan.settled@ == m.settled
                &&& plan.power_on@ == m.power_on
                &&& plan.power_off@ == m.power_off
            }),
        decreases requests@.len() - i,
    {
        proof {
            assert(requests@.take(i + 1).drop_last() =~= requests@.take(i as int));
            assert(requests@.take(i + 1).last() == requests@[i as int]);
            lemma_first_output_bounds(outputs@, requests@[i as int].0);
        }
        let (output, powered) = requests[i];
        match find_output(outputs, output) {
            None => plan.missing.push(output),
            Some(index) => {
                if outputs[index].1 == powered {
                    plan.settled.push((output, powered));
                } else if powered {
                    plan.power_on.push((output, index));
                } else {
                    plan.power_off.push((output, index));
                }
            },
        }
        i += 1;
    }
    assert(requests@.take(requests@.len() as int) =~= requests@);
    plan
}

/// A queued request is the effective power state of its output until it is
/// applied, whatever the output's current state: a queued power-off counts
/// as off while the output is still on, and a queued power-on as on while
/// it is still off. An output with nothing queued stands for its current
/// state.
pub proof fn law_queued_request_is_effective(queued: Map<u32, bool>, output: u32, current: bool)
    ensures
        queued.contains_key(output) ==> spec_effective_power(queued, output, current)
            == queued[output],
        queued.contains_key(output) ==> spec_effective_power(queued, output, true)
            == spec_effective_power(queued, output, false),
        !queued.contains_key(output) ==> spec_effective_power(queued, output, current) == current,
{
}

/// After requests are collected, an output stands for the last power state
/// requested for it, whatever was queued before and whatever its current
/// state.
pub proof fn law_last_request_wins(
    queued: Map<u32, bool>,
    requests: Seq<(u32, bool)>,
    output: u32,
    powered: bool,
    current: bool,
)
    ensures
        spec_effective_power(recorded(queued, requests.push((output, powered))), output, current)
            == powered,
{
    assert(requests.push((output, powered)).drop_last() =~= requests);
}

/// Whether a plan sorts requests as a plan must: missing outputs exist
/// nowhere; a settled request is already the output's state; an output to
/// switch on is off now, one to switch off is on now, each given with its
/// index; and every entry comes from one of `requests`.
pub open spec fn plan_sorted(
    p: PowerPlanModel,
    requests: Seq<(u32, bool)>,
    outputs: Seq<(u32, bool)>,
) -> bool {
    &&& p.missing.len() + p.settled.len() + p.power_on.len() + p.power_off.len()
        == requests.len()
    &&& forall|k: int, i: int|
        0 <= k < p.missing.len() && 0 <= i < outputs.len() ==> (#[trigger] outputs[i]).0
            != #[trigger] p.missing[k]
    &&& forall|k: int|
        0 <= k < p.missing.len() ==> requests.contains((#[trigger] p.missing[k], true))
            || requests.contains((p.missing[k], false))
    &&& forall|k: int|
        0 <= k < p.settled.len() ==> outputs.contains(#[trigger] p.settled[k]) && requests.contains(
            p.settled[k],
        )
    &&& forall|k: int|
        0 <= k < p.power_on.len() ==> {
            let (o, i) = #[trigger] p.power_on[k];
            &&& 0 <= i < outputs.len()
            &&& outputs[i as int] == (o, false)
            &&& requests.contains((o, true))
        }
    &&& forall|k: int|
        0 <= k < p.power_off.len() ==> {
            let (o, i) = #[trigger] p.power_off[k];
            &&& 0 <= i < outputs.len()
            &&& outputs[i as int] == (o, true)
            &&& requests.contains((o, false))
        }
}

proof fn lemma_contains_prefix(s: Seq<(u32, bool)>, x: (u32, bool))
    requires
        s.len() > 0,
        s.drop_last().contains(x),
    ensures
        s.contains(x),
{
    let j = choose|j: int| 0 <= j < s.drop_last().len() && s.drop_last()[j] == x;
    assert(s[j] == x);
}

/// A batch of power requests is split over the outputs that exist now: each
/// request lands in exactly one part of the plan. A request for an output
/// that does not exist is missing; one for the state the output is already
/// in is settled; otherwise the output is switched on when it is off and
/// asked to be on, and off when it is on and asked to be off.
pub proof fn law_power_plan_sorts_every_request(
    requests: Seq<(u32, bool)>,
    outputs: Seq<(u32, bool)>,
)
    requires
        outputs.len() <= usize::MAX,
    ensures
        plan_sorted(spec_plan(requests, outputs), requests, outputs),
    decreases requests.len(),
{
    if requests.len() > 0 {
        let d = requests.drop_last();
        law_power_plan_sorts_every_request(d, outputs);
        let p = spec_plan(d, outputs);
        let q = spec_plan(requests, outputs);
        let (output, powered) = requests.last();
        assert(requests[requests.len() - 1] == (output, powered));
        lemma_first_output_bounds(outputs, output);
        assert(q.missing.len() + q.settled.len() + q.power_on.len() + q.power_off.len()
            == p.missing.len() + p.settled.len() + p.power_on.len() + p.power_off.len() + 1);
        assert forall|x: (u32, bool)| d.contains(x) implies requests.contains(x) by {
            lemma_contains_prefix(requests, x);
        }
        assert forall|k: int, i: int|
            0 <= k < q.missing.len() && 0 <= i < outputs.len() implies (#[trigger] outputs[i]).0
            != #[trigger] q.missing[k] by {
            if k < p.missing.len() {
                assert(q.missing[k] == p.missing[k]);
            }
        }
        assert forall|k: int| 0 <= k < q.missing.len() implies requests.contains(
            (#[trigger] q.missing[k], true),
        ) || requests.contains((q.missing[k], false)) by {
            if k < p.missing.len() {
                assert(q.missing[k] == p.missing[k]);
                if d.contains((p.missing[k], true)) {
                    lemma_contains_prefix(requests, (p.missing[k], true));
                } else {
                    lemma_contains_prefix(requests, (p.missing[k], false));
                }
            } else {
                assert(requests.contains((q.missing[k], powered)));
            }
        }
        assert forall|k: int| 0 <= k < q.settled.len() implies outputs.contains(
            #[trigger] q.settled[k],
        ) && requests.contains(q.settled[k]) by {
            if k < p.settled.len() {
                assert(q.settled[k] == p.settled[k]);
            } else {
                let i = first_output(outputs, output)->0;
                assert(outputs[i] == q.settled[k]);
            }
        }
        assert forall|k: int| 0 <= k < q.power_on.len() implies {
            let (o, i) = #[trigger] q.power_on[k];
            &&& 0 <= i < outputs.len()
            &&& outputs[i as int] == (o, false)
            &&& requests.contains((o, true))
        } by {
            if k < p.power_on.len() {
                assert(q.power_on[k] == p.power_on[k]);
            } else {
                let i = first_output(outputs, output)->0;
                assert(q.power_on[k] == (output, i as usize));
                assert((i as usize) as int == i);
                assert(outputs[i].0 == output);
                assert(outputs[i] == (output, false));
            }
        }
        assert forall|k: int| 0 <= k < q.power_off.len() implies {
            let (o, i) = #[trigger] q.power_off[k];
            &&& 0 <= i < outputs.len()
            &&& outputs[i as int] == (o, true)
            &&& requests.contains((o, false))
        } by {
            if k < p.power_off.len() {
                assert(q.power_off[k] == p.power_off[k]);
            } else {
                let i = first_output(outputs, output)->0;
                assert(q.power_off[k] == (output, i as usize));
                assert((i as usize) as int == i);
                assert(outputs[i].0 == output);
                assert(outputs[i] == (output, true));
            }
        }
        assert(plan_sorted(q, requests, outputs));
    }
}

} // verus!
