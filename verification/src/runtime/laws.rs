//! What holds of every sink runner, proved from the definitions in
//! [`crate::runtime::sink`] and [`crate::runtime::deadline`].

use crate::runtime::deadline::{bound_to, miss_of, misses, MissView, RuleView, Timestamp};
use crate::runtime::message::DataView;
use crate::runtime::sink::{
    annotated,
    new_misses,
    sink_step,
    take_links,
    ActionView,
    EventView,
    PhaseView,
    SinkRunnerView,
};
use vstd::prelude::*;

verus! {

/// Rules that are not bound to the node give no miss.
pub proof fn lemma_unbound_rules_give_no_miss(rules: Seq<RuleView>, node: Seq<char>, now: Timestamp)
    requires
        forall|i: int| 0 <= i < rules.len() ==> !bound_to(#[trigger] rules[i], node),
    ensures
        new_misses(rules, node, now) == Seq::<MissView>::empty(),
    decreases rules.len(),
{
    if rules.len() > 0 {
        let front = rules.drop_last();
        assert forall|i: int| 0 <= i < front.len() implies !bound_to(#[trigger] front[i], node) by {
            assert(front[i] == rules[i]);
        }
        lemma_unbound_rules_give_no_miss(front, node, now);
        assert(!bound_to(rules[rules.len() - 1], node));
    }
}

/// A sink to which none of a message's rules is bound hands the message to
/// the user's logic as it came: the misses of the message are unchanged.
pub proof fn lemma_sink_without_rules_keeps_message(
    message: DataView,
    node: Seq<char>,
    now: Timestamp,
)
    requires
        forall|i: int|
            0 <= i < message.end_to_end_deadlines.len() ==> !bound_to(
                #[trigger] message.end_to_end_deadlines[i],
                node,
            ),
    ensures
        annotated(message, node, now) == message,
        annotated(message, node, now).missed_end_to_end_deadlines
            == message.missed_end_to_end_deadlines,
{
    lemma_unbound_rules_give_no_miss(message.end_to_end_deadlines, node, now);
    assert(message.missed_end_to_end_deadlines + Seq::<MissView>::empty()
        =~= message.missed_end_to_end_deadlines);
}

/// A message with one rule, bound to the sink and exceeded on arrival, gets
/// exactly one more miss, that of the rule; and the loop goes on to call the
/// user's logic with the message.
pub proof fn lemma_one_missed_rule_gives_one_miss(
    message: DataView,
    rule: RuleView,
    node: Seq<char>,
    now: Timestamp,
    attached: bool,
)
    requires
        message.end_to_end_deadlines == seq![rule],
        bound_to(rule, node),
        now.time - rule.start.time > rule.duration,
    ensures
        annotated(message, node, now).missed_end_to_end_deadlines
            == message.missed_end_to_end_deadlines.push(miss_of(rule, now)),
        sink_step(attached, node, PhaseView::Syncing(message), EventView::ClockRead(now)) == (
            PhaseView::Invoking,
            ActionView::Invoke(annotated(message, node, now)),
        ),
{
    let rules = message.end_to_end_deadlines;
    assert(rules.drop_last() =~= Seq::<RuleView>::empty());
    assert(rules.last() == rule);
    assert(new_misses(rules.drop_last(), node, now) =~= Seq::<MissView>::empty());
    assert(new_misses(rules, node, now) =~= seq![miss_of(rule, now)]);
    assert(message.missed_end_to_end_deadlines + seq![miss_of(rule, now)]
        =~= message.missed_end_to_end_deadlines.push(miss_of(rule, now)));
}

/// Whether `miss` is the miss of a rule of `rules` that is missed.
pub open spec fn is_miss_of_a_rule(
    rules: Seq<RuleView>,
    node: Seq<char>,
    now: Timestamp,
    miss: MissView,
) -> bool {
    exists|i: int|
        0 <= i < rules.len() && misses(#[trigger] rules[i], node, now) && miss == miss_of(
            rules[i],
            now,
        )
}

/// The misses found on arrival are those of the rules that are missed: each
/// rule that is missed has its miss among them, and each of them is the miss
/// of such a rule.
pub proof fn lemma_new_misses_are_the_missed_rules(
    rules: Seq<RuleView>,
    node: Seq<char>,
    now: Timestamp,
)
    ensures
        new_misses(rules, node, now).len() <= rules.len(),
        forall|i: int|
            0 <= i < rules.len() && misses(#[trigger] rules[i], node, now) ==> new_misses(
                rules,
                node,
                now,
            ).contains(miss_of(rules[i], now)),
        forall|j: int|
            0 <= j < new_misses(rules, node, now).len() ==> is_miss_of_a_rule(
                rules,
                node,
                now,
                #[trigger] new_misses(rules, node, now)[j],
            ),
    decreases rules.len(),
{
    if rules.len() > 0 {
        let front = rules.drop_last();
        let last = rules.last();
        lemma_new_misses_are_the_missed_rules(front, node, now);
        let earlier = new_misses(front, node, now);
        let all = new_misses(rules, node, now);
        assert forall|i: int|
            0 <= i < rules.len() && misses(#[trigger] rules[i], node, now) implies all.contains(
            miss_of(rules[i], now),
        ) by {
            if i < front.len() {
                assert(front[i] == rules[i]);
                let w = choose|w: int| 0 <= w < earlier.len() && earlier[w] == miss_of(rules[i], now);
                assert(all[w] == miss_of(rules[i], now));
            } else {
                assert(all[all.len() - 1] == miss_of(last, now));
            }
        }
        assert forall|j: int| 0 <= j < all.len() implies is_miss_of_a_rule(
            rules,
            node,
            now,
            #[trigger] all[j],
        ) by {
            if j < earlier.len() {
                assert(is_miss_of_a_rule(front, node, now, earlier[j]));
                let i = choose|i: int|
                    0 <= i < front.len() && misses(#[trigger] front[i], node, now) && earlier[j]
                        == miss_of(front[i], now);
                assert(rules[i] == front[i]);
            } else {
                assert(misses(rules[rules.len() - 1], node, now));
            }
        }
    }
}

/// Taking the input links twice in a row, with no link attached in between:
/// the first call hands over the attached link under the name of the input
/// port, the second hands over nothing.
pub proof fn lemma_take_input_links_twice<L>(runner: SinkRunnerView<L>)
    ensures
        runner.link is Some ==> take_links(runner).1 == Map::<Seq<char>, L>::empty().insert(
            runner.input.port_id,
            runner.link->0,
        ),
        take_links(runner).0.link is None,
        take_links(take_links(runner).0).1 == Map::<Seq<char>, L>::empty(),
        take_links(take_links(runner).0).0 == take_links(runner).0,
{
}

} // verus!
