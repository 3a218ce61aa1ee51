//! Progress of a build: the milestones at which a percentage is signalled,
//! and what the one who watches the signals does with each.
use vstd::prelude::*;

verus! {

/// A progress signal: a percentage from 5 to 100 in steps of 5, or 0 when
/// the build is finished.
pub type Signal = u8;

/// The signal that ends a build.
pub const FINISHED: Signal = 0;

/// The number of milestones of a build.
pub const STEPS: usize = 20;

/// The number of processed documents at which `percent` is signalled in a
/// build of `expected` documents.
pub open spec fn milestone(expected: nat, percent: nat) -> nat {
    (expected * percent) / 100
}

/// The percentage of the milestone at place `i`.
pub open spec fn percent_at(i: int) -> nat {
    (5 * (i + 1)) as nat
}

/// The milestones of a build of `expected` documents: for each percentage
/// from 5 to 100 in steps of 5, the document count at which it is due.
pub open spec fn milestones_of(expected: nat) -> Seq<(usize, Signal)> {
    Seq::new(
        STEPS as nat,
        |i: int| (milestone(expected, percent_at(i)) as usize, percent_at(i) as Signal),
    )
}

/// The percentages among `milestones` that are due at `processed`
/// documents, in the order of the milestones.
pub open spec fn due(milestones: Seq<(usize, Signal)>, processed: nat) -> Seq<Signal>
    decreases milestones.len(),
{
    if milestones.len() == 0 {
        Seq::empty()
    } else {
        let before = due(milestones.drop_last(), processed);
        if milestones.last().0 == processed {
            before.push(milestones.last().1)
        } else {
            before
        }
    }
}

/// The signals that are sent when the `processed`-th document of a build
/// of `expected` documents is committed.
pub open spec fn signals_at(expected: nat, processed: nat) -> Seq<Signal> {
    due(milestones_of(expected), processed)
}

/// The signals of the commits after the `from`-th up to the `to`-th, in
/// order.
pub open spec fn signals_between(expected: nat, from: nat, to: nat) -> Seq<Signal>
    decreases to,
{
    if to <= from {
        Seq::empty()
    } else {
        signals_between(expected, from, (to - 1) as nat) + signals_at(expected, to)
    }
}

proof fn milestone_by_parts(expected: nat, percent: nat)
    ensures
        milestone(expected, percent) == (expected / 100) * percent + ((expected % 100) * percent)
            / 100,
        milestone(expected, percent) <= expected || percent > 100,
{
    let q = expected / 100;
    let r = expected % 100;
    assert(expected * percent == (q * percent) * 100 + r * percent) by (nonlinear_arith)
        requires
            expected == q * 100 + r,
    ;
    assert(((q * percent) * 100 + r * percent) / 100 == q * percent + (r * percent) / 100)
        by (nonlinear_arith);
    if percent <= 100 {
        assert((expected * percent) / 100 <= expected) by (nonlinear_arith)
            requires
                percent <= 100,
        ;
    }
}

/// The milestones of a build of `docs_count` documents.
pub fn calculate_milestones(docs_count: usize) -> (milestones: Vec<(usize, Signal)>)
    ensures
        milestones@ == milestones_of(docs_count as nat),
{
    let whole = docs_count / 100;
    let rest = docs_count % 100;
    let mut milestones: Vec<(usize, Signal)> = Vec::new();
    let mut i: usize = 0;
    while i < STEPS
        invariant
            i <= STEPS,
            whole == docs_count / 100,
            rest == docs_count % 100,
            milestones@.len() == i,
            forall|k: int| 0 <= k < i ==> milestones@[k] == milestones_of(docs_count as nat)[k],
        decreases STEPS - i,
    {
        let percent: usize = 5 * (i + 1);
        proof {
            milestone_by_parts(docs_count as nat, percent as nat);
            assert(whole * percent <= docs_count) by (nonlinear_arith)
                requires
                    whole == docs_count / 100,
                    percent <= 100,
            ;
            assert(rest * percent <= 9900) by (nonlinear_arith)
                requires
                    rest < 100,
                    percent <= 100,
            ;
        }
        let at = whole * percent + (rest * percent) / 100;
        milestones.push((at, percent as Signal));
        i += 1;
    }
    milestones
}

/// The signals that are due once `count` documents are processed.
pub fn due_signals(milestones: &Vec<(usize, Signal)>, count: usize) -> (signals: Vec<Signal>)
    ensures
        signals@ == due(milestones@, count as nat),
{
    let mut signals: Vec<Signal> = Vec::new();
    let mut i: usize = 0;
    while i < milestones.len()
        invariant
            i <= milestones@.len(),
            signals@ == due(milestones@.take(i as int), count as nat),
        decreases milestones@.len() - i,
    {
        assert(milestones@.take(i + 1).drop_last() == milestones@.take(i as int));
        if milestones[i].0 == count {
            signals.push(milestones[i].1);
        }
        i += 1;
    }
    assert(milestones@.take(milestones@.len() as int) == milestones@);
    signals
}

/// How often `signal` stands among `signals`.
pub open spec fn times(signals: Seq<Signal>, signal: Signal) -> nat
    decreases signals.len(),
{
    if signals.len() == 0 {
        0
    } else {
        times(signals.drop_last(), signal) + if signals.last() == signal {
            1nat
        } else {
            0nat
        }
    }
}

/// The percentages that are signalled: from 5 to 100 in steps of 5.
pub open spec fn is_percentage(signal: Signal) -> bool {
    5 <= signal <= 100 && signal % 5 == 0
}

proof fn times_of_concat(first: Seq<Signal>, second: Seq<Signal>, signal: Signal)
    ensures
        times(first + second, signal) == times(first, signal) + times(second, signal),
    decreases second.len(),
{
    if second.len() != 0 {
        assert((first + second).drop_last() =~= first + second.drop_last());
        times_of_concat(first, second.drop_last(), signal);
    }
}

proof fn times_among(expected: nat, processed: nat, signal: Signal, n: nat)
    requires
        expected <= usize::MAX,
        n <= STEPS,
    ensures
        times(due(milestones_of(expected).take(n as int), processed), signal) == (if is_percentage(
            signal,
        ) && signal <= 5 * n && milestone(expected, signal as nat) == processed {
            1nat
        } else {
            0nat
        }),
    decreases n,
{
    let all = milestones_of(expected);
    if n > 0 {
        times_among(expected, processed, signal, (n - 1) as nat);
        let now = all.take(n as int);
        assert(now.drop_last() == all.take(n - 1));
        milestone_by_parts(expected, percent_at(n - 1));
        let before = due(all.take(n - 1), processed);
        let after = due(now, processed);
        if now.last().0 == processed {
            assert(after.drop_last() == before);
            assert(times(after, signal) == times(before, signal) + if signal == 5 * n {
                1nat
            } else {
                0nat
            });
        }
    }
}

/// When a document is committed, a percentage is signalled once if its
/// milestone is the number of documents processed by then, and not at
/// all otherwise; nothing but a percentage is signalled.
pub proof fn signals_at_commit(expected: nat, processed: nat, signal: Signal)
    requires
        expected <= usize::MAX,
    ensures
        times(signals_at(expected, processed), signal) == (if is_percentage(signal) && milestone(
            expected,
            signal as nat,
        ) == processed {
            1nat
        } else {
            0nat
        }),
{
    times_among(expected, processed, signal, STEPS as nat);
    assert(milestones_of(expected).take(STEPS as int) == milestones_of(expected));
}

/// Over the commits after the `from`-th up to the `to`-th, a percentage
/// is signalled exactly once if its milestone lies among them, and not
/// at all otherwise: no milestone is passed over and none is signalled
/// twice, whoever commits the documents and in whatever order.
pub proof fn signalled_exactly_once(expected: nat, from: nat, to: nat, signal: Signal)
    requires
        expected <= usize::MAX,
    ensures
        times(signals_between(expected, from, to), signal) == (if is_percentage(signal) && from
            < milestone(expected, signal as nat) <= to {
            1nat
        } else {
            0nat
        }),
    decreases to,
{
    if to > from {
        signalled_exactly_once(expected, from, (to - 1) as nat, signal);
        signals_at_commit(expected, to, signal);
        times_of_concat(
            signals_between(expected, from, (to - 1) as nat),
            signals_at(expected, to),
            signal,
        );
    }
}

/// What the one who watches a build does after looking for a signal.
#[derive(Clone, Copy, Debug, PartialEq, Eq, Structural)]
pub enum Watch {
    /// No signal has come: show the percentage that came last, if any,
    /// wait a while and look again.
    Redraw(Option<Signal>),
    /// A percentage has come: take note of it and look again at once.
    Note(Signal),
    /// The closing signal has come: stop watching.
    Stop,
}

/// Decides what to do after looking for a signal, where `shown` is the
/// percentage noted last and `message` the signal that has come, if any.
pub fn watch(shown: Option<Signal>, message: Option<Signal>) -> (step: Watch)
    ensures
        step == (match message {
            None => Watch::Redraw(shown),
            Some(signal) => if signal == FINISHED {
                Watch::Stop
            } else {
                Watch::Note(signal)
            },
        }),
{
    match message {
        None => Watch::Redraw(shown),
        Some(signal) => if signal == FINISHED {
            Watch::Stop
        } else {
            Watch::Note(signal)
        },
    }
}

} // verus!
