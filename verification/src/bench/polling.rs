//! Waiting for something outside: what to do after each look at it.
use crate::text::push_decimal;
use vstd::prelude::*;
use vstd::string::StringExecFns;

verus! {

/// Milliseconds between two looks at the chain.
pub const TX_INCLUSION_POLL_INTERVAL_MS: u64 = 250;

/// Seconds after which the chain is given up.
pub const TX_INCLUSION_TIMEOUT_SECS: u64 = 120;

/// The block height that the chain has to reach: `min_blocks` past
/// `from_block_id`, or the last height there is.
pub open spec fn advance_target(from_block_id: u64, min_blocks: u64) -> u64 {
    if from_block_id + min_blocks > u64::MAX {
        u64::MAX
    } else {
        (from_block_id + min_blocks) as u64
    }
}

/// Works out the block height that the chain has to reach.
pub fn chain_target(from_block_id: u64, min_blocks: u64) -> (target: u64)
    ensures
        target == advance_target(from_block_id, min_blocks),
{
    if min_blocks > u64::MAX - from_block_id {
        u64::MAX
    } else {
        from_block_id + min_blocks
    }
}

/// What to do after a look at the chain.
#[derive(Debug, Clone, Copy, PartialEq, Eq, Structural)]
pub enum ChainWait {
    /// The chain is far enough.
    Done,
    /// Sleep and look again.
    PollAgain,
    /// Report the failed look, sleep and look again.
    ReportAndPollAgain,
    /// The time is up.
    TimedOut,
    /// Report the failed look; the time is up.
    ReportAndTimedOut,
}

/// Whether a look at the chain shows that it is far enough.
pub open spec fn reached(reply: Option<u64>, target: u64) -> bool {
    reply matches Some(current) && current >= target
}

/// What to do after one look at the chain.
pub open spec fn chain_action(reply: Option<u64>, deadline_passed: bool, target: u64) -> ChainWait {
    if reached(reply, target) {
        ChainWait::Done
    } else {
        match (reply is None, deadline_passed) {
            (false, false) => ChainWait::PollAgain,
            (false, true) => ChainWait::TimedOut,
            (true, false) => ChainWait::ReportAndPollAgain,
            (true, true) => ChainWait::ReportAndTimedOut,
        }
    }
}

/// What to do after one look at the chain. `reply` is the height of the chain,
/// `None` if it could not be had.
pub fn wait_for_chain_advance(
    from_block_id: u64,
    min_blocks: u64,
    reply: Option<u64>,
    deadline_passed: bool,
) -> (action: ChainWait)
    ensures
        action == chain_action(
            reply,
            deadline_passed,
            advance_target(from_block_id, min_blocks),
        ),
{
    let target: u64 = chain_target(from_block_id, min_blocks);
    match reply {
        Some(current) => if current >= target {
            ChainWait::Done
        } else if deadline_passed {
            ChainWait::TimedOut
        } else {
            ChainWait::PollAgain
        },
        None => if deadline_passed {
            ChainWait::ReportAndTimedOut
        } else {
            ChainWait::ReportAndPollAgain
        },
    }
}

/// The words in which a chain that does not advance is reported.
pub open spec fn no_advance_text(from_block_id: u64, min_blocks: u64) -> Seq<char> {
    "chain did not advance from "@ + crate::text::decimal(from_block_id as nat)
        + " to at least "@ + crate::text::decimal(
        advance_target(from_block_id, min_blocks) as nat,
    ) + " within "@ + crate::text::decimal(TX_INCLUSION_TIMEOUT_SECS as nat) + "s"@
}

/// Reports a chain that does not advance.
pub fn no_advance_message(from_block_id: u64, min_blocks: u64) -> (text: String)
    ensures
        text@ == no_advance_text(from_block_id, min_blocks),
{
    let mut text = "chain did not advance from ".to_owned();
    push_decimal(&mut text, from_block_id as u128);
    text.append(" to at least ");
    push_decimal(&mut text, chain_target(from_block_id, min_blocks) as u128);
    text.append(" within ");
    push_decimal(&mut text, TX_INCLUSION_TIMEOUT_SECS as u128);
    text.append("s");
    text
}

/// How a wait ends.
pub enum WaitEnd {
    /// What was waited for has come.
    Ready,
    /// The time is up.
    GivenUp,
}

/// How a wait for the chain ends, given what each look at it showed and whether
/// the deadline had passed by then. `None` while it goes on.
pub open spec fn chain_wait(polls: Seq<(Option<u64>, bool)>, target: u64) -> Option<WaitEnd>
    decreases polls.len(),
{
    if polls.len() == 0 {
        None
    } else {
        match chain_action(polls[0].0, polls[0].1, target) {
            ChainWait::Done => Some(WaitEnd::Ready),
            ChainWait::PollAgain => chain_wait(polls.drop_first(), target),
            ChainWait::ReportAndPollAgain => chain_wait(polls.drop_first(), target),
            ChainWait::TimedOut => Some(WaitEnd::GivenUp),
            ChainWait::ReportAndTimedOut => Some(WaitEnd::GivenUp),
        }
    }
}

/// A wait for the chain ends with the first look that shows it far enough or
/// that comes too late. It succeeds exactly if that look shows the chain far
/// enough. All looks before, failed ones among them, are passed over.
pub proof fn chain_wait_ends_at_first(polls: Seq<(Option<u64>, bool)>, target: u64, i: int)
    requires
        0 <= i < polls.len(),
        reached(polls[i].0, target) || polls[i].1,
        forall|j: int|
            0 <= j < i ==> !reached((#[trigger] polls[j]).0, target) && !polls[j].1,
    ensures
        chain_wait(polls, target) == Some(
            if reached(polls[i].0, target) {
                WaitEnd::Ready
            } else {
                WaitEnd::GivenUp
            },
        ),
    decreases i,
{
    if i > 0 {
        let rest = polls.drop_first();
        assert(!reached(polls[0].0, target) && !polls[0].1);
        assert forall|j: int| 0 <= j < i - 1 implies !reached((#[trigger] rest[j]).0, target)
            && !rest[j].1 by {
            assert(rest[j] == polls[j + 1]);
        }
        chain_wait_ends_at_first(rest, target, i - 1);
    }
}

/// A wait for the chain is given up only if some look came too late and neither
/// it nor any look before showed the chain far enough.
pub proof fn chain_is_given_up_only_late(polls: Seq<(Option<u64>, bool)>, target: u64) -> (late: int)
    requires
        chain_wait(polls, target) == Some(WaitEnd::GivenUp),
    ensures
        0 <= late < polls.len(),
        polls[late].1,
        forall|j: int| 0 <= j <= late ==> !reached((#[trigger] polls[j]).0, target),
    decreases polls.len(),
{
    if polls[0].1 {
        0
    } else {
        let rest = polls.drop_first();
        let late = chain_is_given_up_only_late(rest, target) + 1;
        assert forall|j: int| 0 <= j <= late implies !reached((#[trigger] polls[j]).0, target) by {
            if j > 0 {
                assert(rest[j - 1] == polls[j]);
            }
        }
        late
    }
}

/// A chain that has advanced far enough is recognised whatever the clock says,
/// and one that has advanced further is too.
pub proof fn advance_is_recognised(from_block_id: u64, min_blocks: u64, current: u64, later: u64)
    requires
        current >= from_block_id + min_blocks,
        later >= current,
    ensures
        current >= advance_target(from_block_id, min_blocks),
        later >= advance_target(from_block_id, min_blocks),
{
}

/// Milliseconds between two questions to the indexer.
pub const FINALITY_POLL_INTERVAL_MS: u64 = 200;

/// Seconds after which the indexer is given up.
pub const FINALITY_TIMEOUT_SECS: u64 = 60;

/// What happened last while waiting for the indexer.
#[derive(Debug, Clone, Copy, PartialEq, Eq, Structural)]
pub enum FinalityEvent {
    /// It answered with the last finalised block.
    Block { id: u64 },
    /// It answered that no block is finalised yet.
    NoneYet,
    /// The question failed.
    Failed,
    /// The time ran out.
    TimedOut,
}

/// What to do next while waiting for the indexer.
#[derive(Debug, Clone, Copy, PartialEq, Eq, Structural)]
pub enum FinalityWait {
    /// The indexer has caught up: the time that has passed is the result.
    Done,
    /// Sleep and ask again.
    PollAgain,
    /// Report the failure, sleep and ask again.
    ReportAndPollAgain,
    /// Report that the indexer did not catch up. This is no error: the time
    /// that has passed is the result all the same.
    ReportTimeoutAndFinish,
}

/// What to do after an event, when the sequencer's last block is `tip`.
pub open spec fn finality_action(event: FinalityEvent, tip: u64) -> FinalityWait {
    match event {
        FinalityEvent::Block { id } => if id >= tip {
            FinalityWait::Done
        } else {
            FinalityWait::PollAgain
        },
        FinalityEvent::NoneYet => FinalityWait::PollAgain,
        FinalityEvent::Failed => FinalityWait::ReportAndPollAgain,
        FinalityEvent::TimedOut => FinalityWait::ReportTimeoutAndFinish,
    }
}

/// What to do next while waiting for the indexer to finalise the sequencer's
/// last block.
pub fn measure_bedrock_finality(event: FinalityEvent, sequencer_tip: u64) -> (action: FinalityWait)
    ensures
        action == finality_action(event, sequencer_tip),
{
    match event {
        FinalityEvent::Block { id } => if id >= sequencer_tip {
            FinalityWait::Done
        } else {
            FinalityWait::PollAgain
        },
        FinalityEvent::NoneYet => FinalityWait::PollAgain,
        FinalityEvent::Failed => FinalityWait::ReportAndPollAgain,
        FinalityEvent::TimedOut => FinalityWait::ReportTimeoutAndFinish,
    }
}

/// The result of a wait, given what happened and how many nanoseconds had
/// passed each time: the time of the first event that ends it. `None` while it
/// goes on.
pub open spec fn finality_nanos(events: Seq<(FinalityEvent, nat)>, tip: u64) -> Option<nat>
    decreases events.len(),
{
    if events.len() == 0 {
        None
    } else {
        match finality_action(events[0].0, tip) {
            FinalityWait::Done => Some(events[0].1),
            FinalityWait::ReportTimeoutAndFinish => Some(events[0].1),
            FinalityWait::PollAgain => finality_nanos(events.drop_first(), tip),
            FinalityWait::ReportAndPollAgain => finality_nanos(events.drop_first(), tip),
        }
    }
}

/// Whether an event tells that the indexer has caught up.
pub open spec fn caught_up(event: FinalityEvent, tip: u64) -> bool {
    event matches FinalityEvent::Block { id } && id >= tip
}

/// Waiting for finality always comes to a result and never to an error. It ends
/// with the first answer that has caught up, or when the time runs out, and
/// takes as long as had passed by then. All answers before are passed over.
pub proof fn finality_wait_ends_at_first(events: Seq<(FinalityEvent, nat)>, tip: u64, i: int)
    requires
        0 <= i < events.len(),
        caught_up(events[i].0, tip) || events[i].0 is TimedOut,
        forall|j: int|
            0 <= j < i ==> !caught_up((#[trigger] events[j]).0, tip) && !(events[j].0 is TimedOut),
    ensures
        finality_nanos(events, tip) == Some(events[i].1),
    decreases i,
{
    if i > 0 {
        let rest = events.drop_first();
        assert(!caught_up(events[0].0, tip));
        assert forall|j: int| 0 <= j < i - 1 implies !caught_up((#[trigger] rest[j]).0, tip) && !(
        rest[j].0 is TimedOut) by {
            assert(rest[j] == events[j + 1]);
        }
        finality_wait_ends_at_first(rest, tip, i - 1);
    }
}

/// A wait in which no answer has caught up takes at least as long as the time
/// limit, and still has a result, once the time has run out.
pub proof fn timed_out_wait_takes_the_limit(events: Seq<(FinalityEvent, nat)>, tip: u64)
    requires
        events.len() > 0,
        events.last().0 is TimedOut,
        events.last().1 >= FINALITY_TIMEOUT_SECS * 1_000_000_000,
        forall|j: int|
            0 <= j < events.len() - 1 ==> !caught_up((#[trigger] events[j]).0, tip) && !(
            events[j].0 is TimedOut),
    ensures
        finality_nanos(events, tip) == Some(events.last().1),
        finality_nanos(events, tip)->Some_0 >= FINALITY_TIMEOUT_SECS * 1_000_000_000,
{
    finality_wait_ends_at_first(events, tip, events.len() - 1);
}

/// Reports an indexer that does not catch up with the sequencer.
pub fn not_caught_up_message(sequencer_tip: u64) -> (text: String)
    ensures
        text@ == "indexer did not catch up to "@ + crate::text::decimal(sequencer_tip as nat)
            + " within "@ + crate::text::decimal(FINALITY_TIMEOUT_SECS as nat) + "s"@,
{
    let mut text = "indexer did not catch up to ".to_owned();
    push_decimal(&mut text, sequencer_tip as u128);
    text.append(" within ");
    push_decimal(&mut text, FINALITY_TIMEOUT_SECS as u128);
    text.append("s");
    text
}

/// Milliseconds between two attempts to connect to the node.
pub const HTTP_POLL_INTERVAL_MS: u64 = 250;

/// Milliseconds that the node gets to finish its bootstrap once it accepts
/// connections.
pub const HTTP_SETTLE_MS: u64 = 2000;

/// Seconds after which the node is given up.
pub const HTTP_TIMEOUT_SECS: u64 = 60;

/// What happened last while waiting for the node.
#[derive(Debug, Clone, Copy, PartialEq, Eq, Structural)]
pub enum HttpEvent {
    /// The clock was read.
    ClockRead { deadline_passed: bool },
    /// A connection was attempted.
    ConnectionTried { accepted: bool },
}

/// What to do next while waiting for the node.
#[derive(Debug, Clone, Copy, PartialEq, Eq, Structural)]
pub enum HttpWait {
    /// Try to connect.
    Connect,
    /// Let the node settle; then it is ready.
    SettleAndFinish,
    /// Sleep, then read the clock.
    SleepAndReadClock,
    /// The time is up.
    GiveUp,
}

/// What to do next while waiting for the node.
pub open spec fn http_action(event: HttpEvent) -> HttpWait {
    match event {
        HttpEvent::ClockRead { deadline_passed } => if deadline_passed {
            HttpWait::GiveUp
        } else {
            HttpWait::Connect
        },
        HttpEvent::ConnectionTried { accepted } => if accepted {
            HttpWait::SettleAndFinish
        } else {
            HttpWait::SleepAndReadClock
        },
    }
}

/// What to do next while waiting for the node. The first thing is to read the
/// clock.
pub fn wait_for_http(event: HttpEvent) -> (action: HttpWait)
    ensures
        action == http_action(event),
{
    match event {
        HttpEvent::ClockRead { deadline_passed } => if deadline_passed {
            HttpWait::GiveUp
        } else {
            HttpWait::Connect
        },
        HttpEvent::ConnectionTried { accepted } => if accepted {
            HttpWait::SettleAndFinish
        } else {
            HttpWait::SleepAndReadClock
        },
    }
}

/// How a wait for the node ends, given what happened one after the other. `None`
/// while it goes on.
pub open spec fn http_wait(events: Seq<HttpEvent>) -> Option<WaitEnd>
    decreases events.len(),
{
    if events.len() == 0 {
        None
    } else {
        match http_action(events[0]) {
            HttpWait::SettleAndFinish => Some(WaitEnd::Ready),
            HttpWait::GiveUp => Some(WaitEnd::GivenUp),
            HttpWait::Connect => http_wait(events.drop_first()),
            HttpWait::SleepAndReadClock => http_wait(events.drop_first()),
        }
    }
}

/// Whether the node has accepted a connection.
pub open spec fn accepted(event: HttpEvent) -> bool {
    event == (HttpEvent::ConnectionTried { accepted: true })
}

/// Whether the clock shows that the time is up.
pub open spec fn too_late(event: HttpEvent) -> bool {
    event == (HttpEvent::ClockRead { deadline_passed: true })
}

/// A wait for the node ends with the first connection that is accepted or the
/// first look at the clock that is too late, and succeeds exactly in the first
/// case. Whatever happened before is passed over.
pub proof fn http_wait_ends_at_first(events: Seq<HttpEvent>, i: int)
    requires
        0 <= i < events.len(),
        accepted(events[i]) || too_late(events[i]),
        forall|j: int| 0 <= j < i ==> !accepted(#[trigger] events[j]) && !too_late(events[j]),
    ensures
        http_wait(events) == Some(
            if accepted(events[i]) {
                WaitEnd::Ready
            } else {
                WaitEnd::GivenUp
            },
        ),
    decreases i,
{
    if i > 0 {
        let rest = events.drop_first();
        assert(!accepted(events[0]) && !too_late(events[0]));
        assert forall|j: int| 0 <= j < i - 1 implies !accepted(#[trigger] rest[j]) && !too_late(
            rest[j],
        ) by {
            assert(rest[j] == events[j + 1]);
        }
        http_wait_ends_at_first(rest, i - 1);
    }
}

/// A wait for the node is given up only if the time was up and no connection had
/// been accepted before.
pub proof fn node_is_given_up_only_late(events: Seq<HttpEvent>) -> (late: int)
    requires
        http_wait(events) == Some(WaitEnd::GivenUp),
    ensures
        0 <= late < events.len(),
        too_late(events[late]),
        forall|j: int| 0 <= j < late ==> !accepted(#[trigger] events[j]),
    decreases events.len(),
{
    if too_late(events[0]) {
        0
    } else {
        let rest = events.drop_first();
        let late = node_is_given_up_only_late(rest) + 1;
        assert forall|j: int| 0 <= j < late implies !accepted(#[trigger] events[j]) by {
            if j > 0 {
                assert(rest[j - 1] == events[j]);
            }
        }
        late
    }
}

/// Reports a node that does not accept connections.
pub fn node_not_up_message(addr: &str) -> (text: String)
    ensures
        text@ == "Bedrock at "@ + addr@ + " did not accept TCP within "@ + crate::text::decimal(
            HTTP_TIMEOUT_SECS as nat,
        ) + "s"@,
{
    let mut text = "Bedrock at ".to_owned();
    text.append(addr);
    text.append(" did not accept TCP within ");
    push_decimal(&mut text, HTTP_TIMEOUT_SECS as u128);
    text.append("s");
    text
}

/// A chain is far enough exactly if it has advanced by the wanted number of
/// blocks, or has reached the last height there is. A look at it ends the wait
/// then, whatever the clock says; otherwise the clock alone decides, and a failed
/// look is reported either way.
pub proof fn chain_decides_before_the_clock(
    from_block_id: u64,
    min_blocks: u64,
    current: u64,
    late: bool,
)
    ensures
        ({
            let target = advance_target(from_block_id, min_blocks);
            &&& chain_action(Some(current), late, target) == ChainWait::Done <==> (current
                >= from_block_id + min_blocks || current == u64::MAX)
            &&& chain_action(Some(current), late, target) == ChainWait::TimedOut <==> late
                && current < from_block_id + min_blocks && current < u64::MAX
            &&& chain_action(Some(current), late, target) == ChainWait::PollAgain <==> !late
                && current < from_block_id + min_blocks && current < u64::MAX
            &&& chain_action(None, late, target) == if late {
                ChainWait::ReportAndTimedOut
            } else {
                ChainWait::ReportAndPollAgain
            }
        }),
{
}

/// A report of a chain that does not advance names where it stood and where it
/// should have come.
pub proof fn stuck_chain_is_named(from_block_id: u64, min_blocks: u64, target: u64)
    requires
        target == if from_block_id + min_blocks <= u64::MAX {
            from_block_id + min_blocks
        } else {
            u64::MAX as int
        },
    ensures
        no_advance_text(from_block_id, min_blocks) == "chain did not advance from "@
            + crate::text::decimal(from_block_id as nat) + " to at least "@
            + crate::text::decimal(target as nat) + " within "@ + crate::text::decimal(120)
            + "s"@,
{
}

/// The indexer has caught up exactly if it has finalised the sequencer's last
/// block or a later one. Anything else it says leads to another question, and
/// only the time limit ends the wait otherwise.
pub proof fn only_the_tip_or_the_limit_ends_the_wait(id: u64, tip: u64)
    ensures
        finality_action(FinalityEvent::Block { id }, tip) == FinalityWait::Done <==> id >= tip,
        finality_action(FinalityEvent::Block { id }, tip) == FinalityWait::PollAgain <==> id < tip,
        finality_action(FinalityEvent::NoneYet, tip) == FinalityWait::PollAgain,
        finality_action(FinalityEvent::Failed, tip) == FinalityWait::ReportAndPollAgain,
        finality_action(FinalityEvent::TimedOut, tip) == FinalityWait::ReportTimeoutAndFinish,
{
}

/// A connection is tried only before the deadline, and only an accepted one makes
/// the node ready.
pub proof fn only_an_accepted_connection_is_ready()
    ensures
        http_action(HttpEvent::ClockRead { deadline_passed: false }) == HttpWait::Connect,
        http_action(HttpEvent::ClockRead { deadline_passed: true }) == HttpWait::GiveUp,
        http_action(HttpEvent::ConnectionTried { accepted: true }) == HttpWait::SettleAndFinish,
        http_action(HttpEvent::ConnectionTried { accepted: false }) == HttpWait::SleepAndReadClock,
{
}

} // verus!
