//! Step and scenario measurements. All times are in nanoseconds.
use crate::bench::disk::DiskSizes;
use crate::bench::polling::chain_target;
use crate::bench::sizes::{can_add_up, measure_blocks, size_summary, BlockSize, FetchedBlock};
use crate::text::{push_left_aligned, push_repeated, push_right_aligned};
use crate::token::AccountId;
use vstd::prelude::*;
use vstd::string::StringExecFns;

verus! {

/// What one step took.
#[derive(Debug, Clone)]
pub struct StepResult {
    pub label: String,
    /// From the start of the step until the wallet returned.
    pub submit_nanos: u128,
    /// Waiting for the chain to advance.
    pub inclusion_nanos: Option<u128>,
    /// Bringing the wallet up to the last block.
    pub wallet_sync_nanos: Option<u128>,
    pub total_nanos: u128,
    pub tx_hash: Option<String>,
    /// Sizes of every zone block produced during this step. Empty for steps
    /// that do not advance the chain.
    pub blocks: Vec<BlockSize>,
}

/// What a scenario took.
#[derive(Debug)]
pub struct ScenarioResult {
    pub name: String,
    pub setup_nanos: u128,
    pub steps: Vec<StepResult>,
    /// All steps together, without the setup and the wait for finality.
    pub total_nanos: u128,
    /// Disk sizes sampled at scenario start.
    pub disk_before: Option<DiskSizes>,
    /// Disk sizes sampled at scenario end.
    pub disk_after: Option<DiskSizes>,
    /// From the end of the last step until the indexer reports the sequencer's
    /// last block as finalised.
    pub bedrock_finality_nanos: Option<u128>,
}

/// The time that several steps took together.
pub open spec fn steps_nanos(steps: Seq<StepResult>) -> nat
    decreases steps.len(),
{
    if steps.len() == 0 {
        0
    } else {
        steps_nanos(steps.drop_last()) + steps.last().total_nanos as nat
    }
}

/// Whether nothing has been recorded of the scenario called `name`.
pub open spec fn is_new(result: ScenarioResult, name: Seq<char>) -> bool {
    &&& result.name@ == name
    &&& result.setup_nanos == 0
    &&& result.steps@.len() == 0
    &&& result.total_nanos == 0
    &&& result.disk_before is None
    &&& result.disk_after is None
    &&& result.bedrock_finality_nanos is None
}

/// Whether `after` is `before` with one more step: the step comes last, its time
/// is added to the total, and everything else is as it was.
pub open spec fn recorded(
    before: ScenarioResult,
    step: StepResult,
    after: ScenarioResult,
) -> bool {
    &&& after.steps@ == before.steps@.push(step)
    &&& after.total_nanos == before.total_nanos + step.total_nanos
    &&& after.name == before.name
    &&& after.setup_nanos == before.setup_nanos
    &&& after.disk_before == before.disk_before
    &&& after.disk_after == before.disk_after
    &&& after.bedrock_finality_nanos == before.bedrock_finality_nanos
}

impl ScenarioResult {
    /// Whether the total is that of the recorded steps.
    pub open spec fn wf(self) -> bool {
        self.total_nanos == steps_nanos(self.steps@)
    }

    /// A scenario of which nothing has been recorded.
    pub fn new(name: String) -> (result: Self)
        ensures
            is_new(result, name@),
            result.wf(),
    {
        ScenarioResult {
            name,
            setup_nanos: 0,
            steps: Vec::new(),
            total_nanos: 0,
            disk_before: None,
            disk_after: None,
            bedrock_finality_nanos: None,
        }
    }

    /// Records a step.
    pub fn push(&mut self, step: StepResult)
        requires
            old(self).total_nanos + step.total_nanos <= u128::MAX,
        ensures
            recorded(*old(self), step, *final(self)),
            old(self).wf() ==> final(self).wf(),
    {
        self.total_nanos = self.total_nanos + step.total_nanos;
        self.steps.push(step);
        assert(self.steps@.drop_last() =~= old(self).steps@);
    }
}

/// A scenario to which steps are added one after the other holds exactly these
/// steps in this order, and its total is the sum of their times: neither the
/// setup nor the wait for finality is part of it. `stages` are the results
/// before, between and after the additions.
pub proof fn totals_are_those_of_the_steps(
    name: Seq<char>,
    steps: Seq<StepResult>,
    stages: Seq<ScenarioResult>,
)
    requires
        stages.len() == steps.len() + 1,
        is_new(stages[0], name),
        forall|i: int|
            #![trigger steps[i]]
            0 <= i < steps.len() ==> recorded(stages[i], steps[i], stages[i + 1]),
    ensures
        stages.last().steps@ == steps,
        stages.last().total_nanos == steps_nanos(steps),
        stages.last().name@ == name,
        stages.last().setup_nanos == 0,
        stages.last().disk_before is None,
        stages.last().disk_after is None,
        stages.last().bedrock_finality_nanos is None,
        stages.last().wf(),
    decreases steps.len(),
{
    if steps.len() == 0 {
        assert(stages.last().steps@ =~= steps);
    } else {
        let n = steps.len() - 1;
        let fewer = steps.drop_last();
        let before = stages.drop_last();
        assert(recorded(stages[n], steps[n], stages[n + 1]));
        assert forall|i: int|
            #![trigger fewer[i]]
            0 <= i < fewer.len() implies recorded(before[i], fewer[i], before[i + 1]) by {
            assert(recorded(stages[i], steps[i], stages[i + 1]));
        }
        totals_are_those_of_the_steps(name, fewer, before);
        assert(stages.last().steps@ =~= steps);
    }
}

/// What the wallet returned from an operation.
#[derive(Debug, Clone)]
pub enum WalletReturn {
    /// An account was created.
    RegisterAccount { account_id: AccountId },
    /// A private transfer was submitted.
    PrivacyPreservingTransfer { tx_hash: String },
    /// Anything else.
    Other,
}

/// Whether a step waits for the chain: every step but the creation of an
/// account, which submits nothing.
pub open spec fn waits_for_chain(ret: WalletReturn) -> bool {
    !(ret is RegisterAccount)
}

/// Tells whether a step waits for the chain.
pub fn should_wait_for_chain(ret: &WalletReturn) -> (wait: bool)
    ensures
        wait == waits_for_chain(*ret),
{
    match ret {
        WalletReturn::RegisterAccount { .. } => false,
        _ => true,
    }
}

/// The blocks that a step has to wait for before its state is applied.
pub const STEP_MIN_BLOCKS: u64 = 2;

/// The number after `block_id`, or the last one there is.
pub open spec fn block_after(block_id: u64) -> u64 {
    if block_id == u64::MAX {
        u64::MAX
    } else {
        (block_id + 1) as u64
    }
}

/// The blocks after `pre_block_id` up to `tip`.
pub open spec fn blocks_between(pre_block_id: u64, tip: u64) -> Seq<u64> {
    let first = block_after(pre_block_id);
    Seq::new(
        if first <= tip {
            (tip - first + 1) as nat
        } else {
            0
        },
        |i: int| (first + i) as u64,
    )
}

/// Lists the blocks produced during a step, from the heights of the chain
/// before and after it.
pub fn produced_blocks(pre_block_id: u64, tip: u64) -> (ids: Vec<u64>)
    ensures
        ids@ == blocks_between(pre_block_id, tip),
{
    let mut ids: Vec<u64> = Vec::new();
    let first: u64 = if pre_block_id == u64::MAX {
        u64::MAX
    } else {
        pre_block_id + 1
    };
    if first <= tip {
        let mut next: u64 = first;
        while next < tip
            invariant
                first == block_after(pre_block_id),
                first <= next <= tip,
                ids@ == Seq::new((next - first) as nat, |i: int| (first + i) as u64),
            decreases tip - next,
        {
            ids.push(next);
            next = next + 1;
            assert(ids@ =~= Seq::new((next - first) as nat, |i: int| (first + i) as u64));
        }
        ids.push(tip);
    }
    assert(ids@ =~= blocks_between(pre_block_id, tip));
    ids
}

/// Every block after `pre_block_id` up to `tip` is captured exactly once, and
/// no other.
pub proof fn every_produced_block_is_captured(pre_block_id: u64, tip: u64, block_id: u64)
    requires
        pre_block_id < u64::MAX,
    ensures
        blocks_between(pre_block_id, tip).contains(block_id) <==> pre_block_id < block_id <= tip,
        blocks_between(pre_block_id, tip).no_duplicates(),
{
    let ids = blocks_between(pre_block_id, tip);
    if pre_block_id < block_id <= tip {
        assert(ids[block_id - pre_block_id - 1] == block_id);
    }
}

/// Records the sizes of the blocks produced during a step. `fetched` holds what
/// was found under each of their numbers, in order.
pub fn capture_blocks(pre_block_id: u64, tip: u64, fetched: &Vec<Option<FetchedBlock>>) -> (blocks:
    Vec<BlockSize>)
    requires
        fetched@.len() == blocks_between(pre_block_id, tip).len(),
    ensures
        blocks@.map_values(|b: BlockSize| b@) == crate::bench::sizes::measured_blocks(
            blocks_between(pre_block_id, tip),
            fetched@,
        ),
{
    let ids = produced_blocks(pre_block_id, tip);
    measure_blocks(&ids, fetched)
}

/// The hash that is recorded for a step: that of a private transfer.
pub open spec fn recorded_hash(ret: WalletReturn) -> Option<Seq<char>> {
    match ret {
        WalletReturn::PrivacyPreservingTransfer { tx_hash } => Some(tx_hash@),
        _ => None,
    }
}

/// What happened last in a step.
#[derive(Debug)]
pub enum StepEvent {
    /// The wallet returned from the operation.
    Returned { ret: WalletReturn },
    /// The sequencer reported the height of the chain.
    ChainReported { height: u64 },
    /// The last block was asked for, for the wallet.
    LastBlockRead { id: u64 },
    /// The wallet was synced up to a block.
    WalletSynced { to: u64 },
    /// The last block was asked for, for the measurement.
    TipRead { tip: u64 },
    /// The blocks of the step were asked for; those not found are missing.
    BlocksRead { fetched: Vec<Option<FetchedBlock>> },
}

/// What a step does next.
#[derive(Debug, Clone, Copy, PartialEq, Eq, Structural)]
pub enum StepAction {
    /// Ask for the height of the chain until it reaches the target.
    WaitForChain { target: u64 },
    /// Ask for the last block.
    ReadLastBlock,
    /// Sync the wallet up to a block.
    SyncWallet { to: u64 },
    /// Ask for the last block again.
    ReadTip,
    /// Ask for the blocks of the step.
    ReadBlocks { tip: u64 },
    /// The step is done.
    Finish,
}

/// The height that the chain has to reach before the state of a step is applied.
pub open spec fn step_target(pre_block_id: u64) -> u64 {
    crate::bench::polling::advance_target(pre_block_id, STEP_MIN_BLOCKS)
}

/// What a step does next, when the chain stood at `pre_block_id` before it.
pub open spec fn step_action(pre_block_id: u64, event: StepEvent) -> StepAction {
    match event {
        StepEvent::Returned { ret } => if waits_for_chain(ret) {
            StepAction::WaitForChain { target: step_target(pre_block_id) }
        } else {
            StepAction::Finish
        },
        StepEvent::ChainReported { height } => if height >= step_target(pre_block_id) {
            StepAction::ReadLastBlock
        } else {
            StepAction::WaitForChain { target: step_target(pre_block_id) }
        },
        StepEvent::LastBlockRead { id } => StepAction::SyncWallet { to: id },
        StepEvent::WalletSynced { .. } => StepAction::ReadTip,
        StepEvent::TipRead { tip } => StepAction::ReadBlocks { tip },
        StepEvent::BlocksRead { .. } => StepAction::Finish,
    }
}

/// Whether an event is what an action leads to.
pub open spec fn answers(pre_block_id: u64, action: StepAction, event: StepEvent) -> bool {
    match (action, event) {
        (StepAction::WaitForChain { .. }, StepEvent::ChainReported { .. }) => true,
        (StepAction::ReadLastBlock, StepEvent::LastBlockRead { .. }) => true,
        (StepAction::SyncWallet { to }, StepEvent::WalletSynced { to: synced }) => synced == to,
        (StepAction::ReadTip, StepEvent::TipRead { .. }) => true,
        (StepAction::ReadBlocks { tip }, StepEvent::BlocksRead { fetched }) => fetched@.len()
            == blocks_between(pre_block_id, tip).len(),
        _ => false,
    }
}

/// An event and the time at which it happened.
#[derive(Debug)]
pub struct TimedEvent {
    pub event: StepEvent,
    pub at: u128,
}

/// A step while it is carried out: the height of the chain before it, the time
/// at which it began, and what has happened since.
#[derive(Debug)]
pub struct StepRun {
    pub pre_block_id: u64,
    pub started: u128,
    pub log: Vec<TimedEvent>,
}

impl StepRun {
    /// The action that the `i`-th event led to.
    pub open spec fn action_after(self, i: int) -> StepAction {
        step_action(self.pre_block_id, self.log@[i].event)
    }

    /// Whether `event` may happen next: first the wallet returns, then every
    /// event answers the action before it.
    pub open spec fn expects(self, event: StepEvent) -> bool {
        if self.log@.len() == 0 {
            event is Returned
        } else {
            answers(self.pre_block_id, self.action_after(self.log@.len() - 1), event)
        }
    }

    /// Whether the events followed upon one another as they should.
    pub open spec fn wf(self) -> bool {
        &&& self.log@.len() > 0 ==> self.log@[0].event is Returned
        &&& forall|i: int|
            #![trigger self.log@[i]]
            1 <= i < self.log@.len() ==> answers(
                self.pre_block_id,
                self.action_after(i - 1),
                self.log@[i].event,
            )
    }

    /// Whether the step is done.
    pub open spec fn complete(self) -> bool {
        &&& self.wf()
        &&& self.log@.len() > 0
        &&& self.action_after(self.log@.len() - 1) is Finish
    }

    /// What the wallet returned from the operation.
    pub open spec fn ret(self) -> WalletReturn {
        self.log@[0].event->ret
    }

    /// Whether the clock never went back from the start of the step until
    /// `finished`.
    pub open spec fn ordered(self, finished: u128) -> bool {
        &&& self.started <= finished
        &&& forall|i: int|
            0 <= i < self.log@.len() ==> self.started <= #[trigger] self.log@[i].at <= finished
        &&& forall|i: int, j: int|
            0 <= i <= j < self.log@.len() ==> self.log@[i].at <= self.log@[j].at
    }

    /// A step that has just begun.
    pub fn begin(pre_block_id: u64, started: u128) -> (run: Self)
        ensures
            run.pre_block_id == pre_block_id,
            run.started == started,
            run.log@ == Seq::<TimedEvent>::empty(),
            run.wf(),
    {
        StepRun { pre_block_id, started, log: Vec::new() }
    }

    /// Takes note of an event and says what to do next.
    pub fn happened(&mut self, event: StepEvent, at: u128) -> (action: StepAction)
        requires
            old(self).wf(),
            old(self).expects(event),
        ensures
            final(self).wf(),
            final(self).pre_block_id == old(self).pre_block_id,
            final(self).started == old(self).started,
            final(self).log@ == old(self).log@.push(TimedEvent { event, at }),
            action == step_action(old(self).pre_block_id, event),
            action is Finish ==> final(self).complete(),
    {
        let action = next_action(self.pre_block_id, &event);
        self.log.push(TimedEvent { event, at });
        proof {
            let before = *old(self);
            assert forall|i: int|
                #![trigger self.log@[i]]
                1 <= i < self.log@.len() implies answers(
                self.pre_block_id,
                self.action_after(i - 1),
                self.log@[i].event,
            ) by {
                assert(self.log@[i - 1] == before.log@[i - 1]);
                if i < before.log@.len() {
                    assert(self.log@[i] == before.log@[i]);
                }
            }
        }
        action
    }
}

/// Decides what a step does next.
fn next_action(pre_block_id: u64, event: &StepEvent) -> (action: StepAction)
    ensures
        action == step_action(pre_block_id, *event),
{
    let target: u64 = chain_target(pre_block_id, STEP_MIN_BLOCKS);
    match event {
        StepEvent::Returned { ret } => if should_wait_for_chain(ret) {
            StepAction::WaitForChain { target }
        } else {
            StepAction::Finish
        },
        StepEvent::ChainReported { height } => if *height >= target {
            StepAction::ReadLastBlock
        } else {
            StepAction::WaitForChain { target }
        },
        StepEvent::LastBlockRead { id } => StepAction::SyncWallet { to: *id },
        StepEvent::WalletSynced { .. } => StepAction::ReadTip,
        StepEvent::TipRead { tip } => StepAction::ReadBlocks { tip: *tip },
        StepEvent::BlocksRead { .. } => StepAction::Finish,
    }
}

/// The order inside a step that waits for the chain: the sequencer reported a
/// chain that had advanced far enough, then the last block was read, then the
/// wallet was synced up to that block, then the tip was read, and only then the
/// blocks up to the tip.
pub open spec fn waited_in_order(run: StepRun) -> bool {
    let n = run.log@.len();
    &&& n >= 6
    &&& run.log@[0].event is Returned
    &&& run.log@[n - 5].event matches StepEvent::ChainReported { height }
    &&& height >= step_target(run.pre_block_id)
    &&& run.log@[n - 4].event matches StepEvent::LastBlockRead { id }
    &&& run.log@[n - 3].event == (StepEvent::WalletSynced { to: id })
    &&& run.log@[n - 2].event matches StepEvent::TipRead { tip }
    &&& run.log@[n - 1].event matches StepEvent::BlocksRead { fetched }
    &&& fetched@.len() == blocks_between(run.pre_block_id, tip).len()
}

/// Blocks are read only after the chain has advanced far enough and the wallet
/// has been synced: every step that is done and had to wait for the chain went
/// through all of this in order. A step that only created an account did none
/// of it.
pub proof fn blocks_are_read_after_the_sync(run: StepRun)
    requires
        run.complete(),
    ensures
        waits_for_chain(run.ret()) ==> waited_in_order(run),
        !waits_for_chain(run.ret()) ==> run.log@.len() == 1,
{
    let n = run.log@.len();
    if n > 1 {
        assert(answers(run.pre_block_id, run.action_after(0), run.log@[1].event));
        assert(answers(run.pre_block_id, run.action_after(n - 2), run.log@[n - 1].event));
        assert(run.log@[n - 2].event is TipRead);
        assert(answers(run.pre_block_id, run.action_after(n - 3), run.log@[n - 2].event));
        assert(run.log@[n - 3].event is WalletSynced);
        assert(answers(run.pre_block_id, run.action_after(n - 4), run.log@[n - 3].event));
        assert(run.log@[n - 4].event is LastBlockRead);
        assert(answers(run.pre_block_id, run.action_after(n - 5), run.log@[n - 4].event));
    }
}

/// The time from one instant to another, zero if there is none.
pub open spec fn nanos_between(from: u128, to: u128) -> u128 {
    if from <= to {
        (to - from) as u128
    } else {
        0
    }
}

/// What is recorded of a step that is done. The submission took until the wallet
/// returned. The wait for the chain took from then until it had advanced far
/// enough, and the sync of the wallet from then until it was done.
pub open spec fn is_final(
    step: StepResult,
    label: Seq<char>,
    run: StepRun,
    finished: u128,
) -> bool {
    let n = run.log@.len();
    &&& step.label@ == label
    &&& step.submit_nanos == nanos_between(run.started, run.log@[0].at)
    &&& step.total_nanos == nanos_between(run.started, finished)
    &&& match step.tx_hash {
        Some(text) => recorded_hash(run.ret()) == Some(text@),
        None => recorded_hash(run.ret()) is None,
    }
    &&& if waits_for_chain(run.ret()) {
        &&& step.inclusion_nanos == Some(nanos_between(run.log@[0].at, run.log@[n - 5].at))
        &&& step.wallet_sync_nanos == Some(nanos_between(run.log@[n - 5].at, run.log@[n - 3].at))
        &&& step.blocks@.map_values(|b: BlockSize| b@) == crate::bench::sizes::measured_blocks(
            blocks_between(run.pre_block_id, run.log@[n - 2].event->tip),
            run.log@[n - 1].event->fetched@,
        )
    } else {
        &&& step.inclusion_nanos is None
        &&& step.wallet_sync_nanos is None
        &&& step.blocks@ == Seq::<BlockSize>::empty()
    }
}

/// Puts together what a step took, once it is done.
pub fn finalize_step(label: String, run: &StepRun, finished: u128) -> (step: StepResult)
    requires
        run.complete(),
    ensures
        is_final(step, label@, *run, finished),
        waits_for_chain(run.ret()) ==> waited_in_order(*run),
        run.ordered(finished) ==> step.submit_nanos <= step.total_nanos,
{
    proof {
        blocks_are_read_after_the_sync(*run);
    }
    let n: usize = run.log.len();
    let submitted: u128 = run.log[0].at;
    let submit_nanos: u128 = submitted.saturating_sub(run.started);
    let total_nanos: u128 = finished.saturating_sub(run.started);
    let (tx_hash, waits): (Option<String>, bool) = match &run.log[0].event {
        StepEvent::Returned { ret } => (hash_of(ret), should_wait_for_chain(ret)),
        _ => vstd::pervasive::unreached(),
    };
    if !waits {
        return StepResult {
            label,
            submit_nanos,
            inclusion_nanos: None,
            wallet_sync_nanos: None,
            total_nanos,
            tx_hash,
            blocks: Vec::new(),
        };
    }
    let advanced: u128 = run.log[n - 5].at;
    let synced: u128 = run.log[n - 3].at;
    let blocks = match (&run.log[n - 2].event, &run.log[n - 1].event) {
        (StepEvent::TipRead { tip }, StepEvent::BlocksRead { fetched }) => capture_blocks(
            run.pre_block_id,
            *tip,
            fetched,
        ),
        _ => vstd::pervasive::unreached(),
    };
    StepResult {
        label,
        submit_nanos,
        inclusion_nanos: Some(advanced.saturating_sub(submitted)),
        wallet_sync_nanos: Some(synced.saturating_sub(advanced)),
        total_nanos,
        tx_hash,
        blocks,
    }
}

/// The hash to record for a step.
fn hash_of(ret: &WalletReturn) -> (hash: Option<String>)
    ensures
        match hash {
            Some(text) => recorded_hash(*ret) == Some(text@),
            None => recorded_hash(*ret) is None,
        },
{
    match ret {
        WalletReturn::PrivacyPreservingTransfer { tx_hash } => Some(tx_hash.clone()),
        _ => None,
    }
}

/// The parts of a step do not take longer than the step: as long as the clock
/// does not go back, submission, wait and sync together fit into the total.
pub proof fn parts_fit_into_the_total(
    step: StepResult,
    label: Seq<char>,
    run: StepRun,
    finished: u128,
)
    requires
        run.complete(),
        run.ordered(finished),
        is_final(step, label, run, finished),
    ensures
        step.submit_nanos <= step.total_nanos,
        waits_for_chain(run.ret()) ==> step.submit_nanos + step.inclusion_nanos->Some_0
            + step.wallet_sync_nanos->Some_0 <= step.total_nanos,
{
    blocks_are_read_after_the_sync(run);
}

/// The times of a step as they are shown.
#[derive(Debug, Clone)]
pub struct StepTimes {
    pub submit: String,
    pub inclusion: Option<String>,
    pub wallet_sync: Option<String>,
    pub total: String,
}

/// The times of a scenario as they are shown, in milliseconds and in seconds.
#[derive(Debug, Clone)]
pub struct ScenarioTimes {
    pub setup_ms: String,
    pub setup_s: String,
    pub total_ms: String,
    pub total_s: String,
    pub steps: Vec<StepTimes>,
}

/// Whether there is a text for every time of a step that was measured, and for
/// no other.
pub open spec fn shows_step(times: StepTimes, step: StepResult) -> bool {
    &&& times.inclusion is None <==> step.inclusion_nanos is None
    &&& times.wallet_sync is None <==> step.wallet_sync_nanos is None
}

/// Whether there are texts for every step.
pub open spec fn shows_steps(times: Seq<StepTimes>, steps: Seq<StepResult>) -> bool {
    &&& times.len() == steps.len()
    &&& forall|i: int| 0 <= i < steps.len() ==> shows_step(#[trigger] times[i], steps[i])
}

/// The length of a label in bytes.
pub open spec fn label_bytes(step: StepResult) -> nat {
    vstd::utf8::encode_utf8(step.label@).len()
}

/// The width of the first column: that of the longest label, and of its title.
pub open spec fn label_width(steps: Seq<StepResult>) -> nat
    decreases steps.len(),
{
    if steps.len() == 0 {
        4
    } else if label_bytes(steps.last()) > label_width(steps.drop_last()) {
        label_bytes(steps.last())
    } else {
        label_width(steps.drop_last())
    }
}

/// One line of the table: the first column to the left, the others to the
/// right, two blanks in between.
pub open spec fn table_line(
    width: nat,
    label: Seq<char>,
    submit: Seq<char>,
    inclusion: Seq<char>,
    sync: Seq<char>,
    total: Seq<char>,
) -> Seq<char> {
    crate::text::left_aligned(label, width) + "  "@ + crate::text::right_aligned(submit, 10)
        + "  "@ + crate::text::right_aligned(inclusion, 12) + "  "@ + crate::text::right_aligned(
        sync,
        10,
    ) + "  "@ + crate::text::right_aligned(total, 16) + "\n"@
}

/// A time that may not have been measured.
pub open spec fn time_or_dash(time: Option<String>) -> Seq<char> {
    match time {
        Some(text) => text@,
        None => "-"@,
    }
}

/// The line of a step.
pub open spec fn step_line(width: nat, step: StepResult, times: StepTimes) -> Seq<char> {
    table_line(
        width,
        step.label@,
        times.submit@,
        time_or_dash(times.inclusion),
        time_or_dash(times.wallet_sync),
        times.total@,
    )
}

/// The lines of several steps.
pub open spec fn step_lines(width: nat, steps: Seq<StepResult>, times: Seq<StepTimes>) -> Seq<char>
    decreases steps.len(),
{
    if steps.len() == 0 || times.len() == 0 {
        Seq::empty()
    } else {
        step_lines(width, steps.drop_last(), times.drop_last()) + step_line(
            width,
            steps.last(),
            times.last(),
        )
    }
}

/// All blocks captured in several steps, in order.
pub open spec fn captured_blocks(steps: Seq<StepResult>) -> Seq<BlockSize>
    decreases steps.len(),
{
    if steps.len() == 0 {
        Seq::empty()
    } else {
        captured_blocks(steps.drop_last()) + steps.last().blocks@
    }
}

/// The whole report of a scenario: a title, the table of its steps and the
/// summary of its block sizes.
pub open spec fn scenario_text(result: ScenarioResult, times: ScenarioTimes) -> Seq<char> {
    let width = label_width(result.steps@);
    "\nScenario: "@ + result.name@ + " (setup "@ + times.setup_ms@ + " ms ("@ + times.setup_s@
        + "s), total "@ + times.total_ms@ + " ms ("@ + times.total_s@ + "s))\n"@ + table_line(
        width,
        "step"@,
        "submit_s"@,
        "inclusion_s"@,
        "sync_s"@,
        "total_s"@,
    ) + crate::text::repeated('-', width + 62) + "\n"@ + step_lines(
        width,
        result.steps@,
        times.steps@,
    ) + crate::bench::sizes::size_summary_text(captured_blocks(result.steps@))
}

/// Finds the width of the first column.
fn find_label_width(steps: &Vec<StepResult>) -> (width: usize)
    requires
        forall|i: int| 0 <= i < steps@.len() ==> #[trigger] label_bytes(steps@[i]) + 62 <= usize::MAX,
    ensures
        width == label_width(steps@),
        width + 62 <= usize::MAX,
{
    let mut width: usize = 4;
    let mut i: usize = 0;
    assert(steps@.take(0) =~= Seq::empty());
    while i < steps.len()
        invariant
            forall|j: int| 0 <= j < steps@.len() ==> #[trigger] label_bytes(steps@[j]) + 62
                <= usize::MAX,
            i <= steps@.len(),
            width == label_width(steps@.take(i as int)),
            width + 62 <= usize::MAX,
        decreases steps@.len() - i,
    {
        proof {
            let upto = steps@.take(i + 1);
            assert(upto.drop_last() =~= steps@.take(i as int));
            assert(upto.last() == steps@[i as int]);
            assert(label_bytes(steps@[i as int]) + 62 <= usize::MAX);
        }
        let len: usize = steps[i].label.as_str().as_bytes().len();
        if len > width {
            width = len;
        }
        i = i + 1;
    }
    assert(steps@.take(i as int) =~= steps@);
    width
}

/// Appends one line of the table.
fn push_table_line(
    out: &mut String,
    width: usize,
    label: &str,
    submit: &str,
    inclusion: &str,
    sync: &str,
    total: &str,
)
    ensures
        final(out)@ == old(out)@ + table_line(
            width as nat,
            label@,
            submit@,
            inclusion@,
            sync@,
            total@,
        ),
{
    push_left_aligned(out, label, width);
    out.append("  ");
    push_right_aligned(out, submit, 10);
    out.append("  ");
    push_right_aligned(out, inclusion, 12);
    out.append("  ");
    push_right_aligned(out, sync, 10);
    out.append("  ");
    push_right_aligned(out, total, 16);
    out.append("\n");
    assert(out@ =~= old(out)@ + table_line(
        width as nat,
        label@,
        submit@,
        inclusion@,
        sync@,
        total@,
    ));
}

/// A time that may not have been measured.
fn show_time(time: &Option<String>) -> (text: &str)
    ensures
        text@ == time_or_dash(*time),
{
    match time {
        Some(text) => text.as_str(),
        None => "-",
    }
}

/// Appends the lines of all steps.
fn push_step_lines(out: &mut String, width: usize, steps: &Vec<StepResult>, times: &Vec<StepTimes>)
    requires
        steps@.len() == times@.len(),
    ensures
        final(out)@ == old(out)@ + step_lines(width as nat, steps@, times@),
{
    let mut i: usize = 0;
    assert(out@ =~= old(out)@ + step_lines(width as nat, steps@.take(0), times@.take(0)));
    while i < steps.len()
        invariant
            steps@.len() == times@.len(),
            i <= steps@.len(),
            out@ == old(out)@ + step_lines(
                width as nat,
                steps@.take(i as int),
                times@.take(i as int),
            ),
        decreases steps@.len() - i,
    {
        push_table_line(
            out,
            width,
            steps[i].label.as_str(),
            times[i].submit.as_str(),
            show_time(&times[i].inclusion),
            show_time(&times[i].wallet_sync),
            times[i].total.as_str(),
        );
        proof {
            let steps_upto = steps@.take(i + 1);
            let times_upto = times@.take(i + 1);
            assert(steps_upto.drop_last() =~= steps@.take(i as int));
            assert(times_upto.drop_last() =~= times@.take(i as int));
            assert(steps_upto.last() == steps@[i as int]);
            assert(times_upto.last() == times@[i as int]);
            assert(out@ =~= old(out)@ + step_lines(width as nat, steps_upto, times_upto));
        }
        i = i + 1;
    }
    assert(steps@.take(i as int) =~= steps@);
    assert(times@.take(i as int) =~= times@);
}

/// Collects the blocks captured in all steps.
fn collect_blocks(steps: &Vec<StepResult>) -> (blocks: Vec<&BlockSize>)
    ensures
        blocks@.map_values(|b: &BlockSize| *b) == captured_blocks(steps@),
{
    let mut blocks: Vec<&BlockSize> = Vec::new();
    let mut i: usize = 0;
    assert(steps@.take(0) =~= Seq::empty());
    assert(blocks@.map_values(|b: &BlockSize| *b) =~= Seq::empty());
    while i < steps.len()
        invariant
            i <= steps@.len(),
            blocks@.map_values(|b: &BlockSize| *b) == captured_blocks(steps@.take(i as int)),
        decreases steps@.len() - i,
    {
        let ghost before = captured_blocks(steps@.take(i as int));
        let list = &steps[i].blocks;
        let mut j: usize = 0;
        assert(blocks@.map_values(|b: &BlockSize| *b) =~= before + list@.take(0));
        while j < list.len()
            invariant
                j <= list@.len(),
                blocks@.map_values(|b: &BlockSize| *b) == before + list@.take(j as int),
            decreases list@.len() - j,
        {
            let ghost sofar = blocks@.map_values(|b: &BlockSize| *b);
            blocks.push(&list[j]);
            assert(blocks@.map_values(|b: &BlockSize| *b) =~= sofar.push(list@[j as int]));
            assert(list@.take(j + 1) =~= list@.take(j as int).push(list@[j as int]));
            j = j + 1;
            assert(blocks@.map_values(|b: &BlockSize| *b) =~= before + list@.take(j as int));
        }
        proof {
            assert(list@.take(j as int) =~= list@);
            let upto = steps@.take(i + 1);
            assert(upto.drop_last() =~= steps@.take(i as int));
            assert(upto.last() == steps@[i as int]);
        }
        i = i + 1;
    }
    assert(steps@.take(i as int) =~= steps@);
    blocks
}

/// Whether the report of a scenario can be put together: there are texts for the
/// times of every step, no label is too long for a line, and the sizes of the
/// blocks can be added up.
pub open spec fn printable(result: ScenarioResult, times: ScenarioTimes) -> bool {
    &&& shows_steps(times.steps@, result.steps@)
    &&& forall|i: int|
        0 <= i < result.steps@.len() ==> #[trigger] label_bytes(result.steps@[i]) + 62
            <= usize::MAX
    &&& crate::bench::sizes::sums_fit(captured_blocks(result.steps@))
}

/// Tells whether the report of a scenario can be put together.
pub fn can_print_table(result: &ScenarioResult, times: &ScenarioTimes) -> (res: bool)
    ensures
        res == printable(*result, *times),
{
    if times.steps.len() != result.steps.len() {
        return false;
    }
    let mut i: usize = 0;
    while i < result.steps.len()
        invariant
            times.steps@.len() == result.steps@.len(),
            i <= result.steps@.len(),
            forall|j: int|
                0 <= j < i ==> shows_step(#[trigger] times.steps@[j], result.steps@[j]),
            forall|j: int|
                0 <= j < i ==> #[trigger] label_bytes(result.steps@[j]) + 62 <= usize::MAX,
        decreases result.steps@.len() - i,
    {
        let shown = &times.steps[i];
        if shown.inclusion.is_none() != result.steps[i].inclusion_nanos.is_none()
            || shown.wallet_sync.is_none() != result.steps[i].wallet_sync_nanos.is_none() {
            assert(!shows_step(times.steps@[i as int], result.steps@[i as int]));
            return false;
        }
        let len: usize = result.steps[i].label.as_str().as_bytes().len();
        if len > usize::MAX - 62 {
            assert(label_bytes(result.steps@[i as int]) + 62 > usize::MAX);
            return false;
        }
        assert(label_bytes(result.steps@[i as int]) == len);
        i = i + 1;
    }
    let blocks = collect_blocks(&result.steps);
    can_add_up(&blocks)
}

/// Shows what a scenario took. The times come as texts, one for each time of the
/// result.
pub fn print_table(result: &ScenarioResult, times: &ScenarioTimes) -> (text: String)
    requires
        printable(*result, *times),
    ensures
        text@ == scenario_text(*result, *times),
{
    let width: usize = find_label_width(&result.steps);
    let mut out = "\nScenario: ".to_owned();
    out.append(result.name.as_str());
    out.append(" (setup ");
    out.append(times.setup_ms.as_str());
    out.append(" ms (");
    out.append(times.setup_s.as_str());
    out.append("s), total ");
    out.append(times.total_ms.as_str());
    out.append(" ms (");
    out.append(times.total_s.as_str());
    out.append("s))\n");
    push_table_line(&mut out, width, "step", "submit_s", "inclusion_s", "sync_s", "total_s");
    push_repeated(&mut out, '-', width + 62);
    out.append("\n");
    push_step_lines(&mut out, width, &result.steps, &times.steps);
    let blocks = collect_blocks(&result.steps);
    let summary = size_summary(&blocks);
    out.append(summary.as_str());
    assert(out@ =~= scenario_text(*result, *times));
    out
}

/// A text has at least as many bytes as characters.
proof fn chars_within_bytes(text: Seq<char>)
    ensures
        text.len() <= vstd::utf8::encode_utf8(text).len(),
    decreases text.len(),
{
    if text.len() > 0 {
        chars_within_bytes(text.drop_first());
    }
}

/// Every label fits into the first column.
pub proof fn labels_fit_their_column(steps: Seq<StepResult>, i: int)
    requires
        0 <= i < steps.len(),
    ensures
        steps[i].label@.len() <= label_width(steps),
    decreases steps.len(),
{
    if i == steps.len() - 1 {
        chars_within_bytes(steps[i].label@);
    } else {
        labels_fit_their_column(steps.drop_last(), i);
    }
}

/// The columns of the table line up: all lines whose cells fit into their
/// columns are equally long.
pub proof fn table_lines_align(
    width: nat,
    label: Seq<char>,
    submit: Seq<char>,
    inclusion: Seq<char>,
    sync: Seq<char>,
    total: Seq<char>,
)
    requires
        label.len() <= width,
        submit.len() <= 10,
        inclusion.len() <= 12,
        sync.len() <= 10,
        total.len() <= 16,
    ensures
        table_line(width, label, submit, inclusion, sync, total).len() == width + 57,
{
    reveal_strlit("  ");
    reveal_strlit("\n");
}

/// Only the creation of an account does not wait for the chain.
pub proof fn every_other_step_waits(ret: WalletReturn)
    ensures
        waits_for_chain(ret) <==> !(ret is RegisterAccount),
{
}

/// A report of a chain that is far enough is the fifth event from the end.
#[verifier::spinoff_prover]
proof fn sufficient_report_is_followed_by_four_events(run: StepRun, j: int)
    requires
        run.complete(),
        0 <= j < run.log@.len(),
        run.log@[j].event matches StepEvent::ChainReported { height } && height >= step_target(
            run.pre_block_id,
        ),
    ensures
        j == run.log@.len() - 5,
{
    let n = run.log@.len();
    assert(run.action_after(j) is ReadLastBlock);
    assert(answers(run.pre_block_id, run.action_after(j), run.log@[j + 1].event));
    assert(run.action_after(j + 1) is SyncWallet);
    assert(answers(run.pre_block_id, run.action_after(j + 1), run.log@[j + 2].event));
    assert(run.action_after(j + 2) is ReadTip);
    assert(answers(run.pre_block_id, run.action_after(j + 2), run.log@[j + 3].event));
    assert(run.action_after(j + 3) is ReadBlocks);
    assert(answers(run.pre_block_id, run.action_after(j + 3), run.log@[j + 4].event));
    assert(run.action_after(j + 4) is Finish);
    if j + 5 < n {
        assert(answers(run.pre_block_id, run.action_after(j + 4), run.log@[j + 5].event));
    }
}

/// In a step that is done and had to wait, every event from the second on up to
/// the fifth from the end is a report of the chain, and all of them but the last
/// were too low.
#[verifier::spinoff_prover]
proof fn reports_before_the_last_are_low(run: StepRun, j: int)
    requires
        run.complete(),
        !(run.ret() is RegisterAccount),
        1 <= j <= run.log@.len() - 5,
    ensures
        run.log@[j].event is ChainReported,
        j < run.log@.len() - 5 ==> run.log@[j].event->height < run.pre_block_id + 2
            && run.log@[j].event->height < u64::MAX,
    decreases j,
{
    if j > 1 {
        reports_before_the_last_are_low(run, j - 1);
    }
    assert(answers(run.pre_block_id, run.action_after(j - 1), run.log@[j].event));
    assert(run.log@[j].event is ChainReported);
    if j < run.log@.len() - 5 && run.log@[j].event->height >= step_target(run.pre_block_id) {
        sufficient_report_is_followed_by_four_events(run, j);
    }
}

/// What the times of a step that waits mean, as long as the clock does not go
/// back. The submission lasts until the wallet returns. The wait ends with the
/// first report of a chain that is two blocks further than before the step, which
/// is the event returned here. The sync ends when the wallet is synced, two events
/// later. The three follow one another without a gap.
pub proof fn times_follow_one_another(
    step: StepResult,
    label: Seq<char>,
    run: StepRun,
    finished: u128,
) -> (first: int)
    requires
        run.complete(),
        run.ordered(finished),
        is_final(step, label, run, finished),
        !(run.ret() is RegisterAccount),
    ensures
        1 <= first < run.log@.len() - 2,
        run.log@[first].event matches StepEvent::ChainReported { height } && (height
            >= run.pre_block_id + 2 || height == u64::MAX),
        forall|j: int|
            1 <= j < first ==> ((#[trigger] run.log@[j]).event matches StepEvent::ChainReported {
                height,
            } && height < run.pre_block_id + 2 && height < u64::MAX),
        run.log@[first + 2].event is WalletSynced,
        step.submit_nanos == run.log@[0].at - run.started,
        step.inclusion_nanos is Some,
        step.wallet_sync_nanos is Some,
        step.submit_nanos + step.inclusion_nanos->Some_0 == run.log@[first].at - run.started,
        step.submit_nanos + step.inclusion_nanos->Some_0 + step.wallet_sync_nanos->Some_0
            == run.log@[first + 2].at - run.started,
        step.total_nanos == finished - run.started,
{
    blocks_are_read_after_the_sync(run);
    let n = run.log@.len();
    let first = n - 5;
    assert forall|j: int| 1 <= j < first implies ((
    #[trigger] run.log@[j]).event matches StepEvent::ChainReported { height } && height
        < run.pre_block_id + 2 && height < u64::MAX) by {
        reports_before_the_last_are_low(run, j);
    }
    assert(run.log@[0].at <= run.log@[first].at <= run.log@[first + 2].at);
    first
}

/// A step that only created an account has no wait, no sync and no blocks; its
/// submission lasts until the wallet returns, and the whole step until it is
/// finished.
pub proof fn account_creation_measures_nothing_else(
    step: StepResult,
    label: Seq<char>,
    run: StepRun,
    finished: u128,
)
    requires
        run.complete(),
        run.ordered(finished),
        is_final(step, label, run, finished),
        run.ret() is RegisterAccount,
    ensures
        step.submit_nanos == run.log@[0].at - run.started,
        step.total_nanos == finished - run.started,
        step.inclusion_nanos is None,
        step.wallet_sync_nanos is None,
        step.blocks@.len() == 0,
        step.tx_hash is None,
{
    blocks_are_read_after_the_sync(run);
}

/// A step carries the label that it was given, and the hash that the wallet
/// returned exactly if it returned one.
pub proof fn step_keeps_label_and_hash(
    step: StepResult,
    label: Seq<char>,
    run: StepRun,
    finished: u128,
)
    requires
        run.complete(),
        is_final(step, label, run, finished),
    ensures
        step.label@ == label,
        step.tx_hash is Some <==> run.ret() is PrivacyPreservingTransfer,
        run.ret() matches WalletReturn::PrivacyPreservingTransfer { tx_hash }
            ==> step.tx_hash->Some_0@ == tx_hash@,
{
}

/// The blocks of a step that waits are those after the height before it up to
/// the tip that was read last, in order: if every one of them was found, there is
/// one measurement for each.
pub proof fn blocks_of_a_step(
    step: StepResult,
    label: Seq<char>,
    run: StepRun,
    finished: u128,
    tip: u64,
    fetched: Seq<Option<FetchedBlock>>,
)
    requires
        run.complete(),
        is_final(step, label, run, finished),
        !(run.ret() is RegisterAccount),
        run.log@[run.log@.len() - 2].event == (StepEvent::TipRead { tip }),
        run.log@.last().event matches StepEvent::BlocksRead { fetched: f } && f@ == fetched,
        run.pre_block_id <= tip,
        run.pre_block_id < u64::MAX,
        forall|i: int| 0 <= i < fetched.len() ==> #[trigger] fetched[i] is Some,
    ensures
        step.blocks@.len() == tip - run.pre_block_id,
        forall|i: int|
            0 <= i < step.blocks@.len() ==> {
                &&& (#[trigger] step.blocks@[i]).block_id == run.pre_block_id + 1 + i
                &&& step.blocks@[i].block_bytes == match fetched[i]->Some_0.bytes {
                    Some(bytes) => bytes,
                    None => 0,
                }
            },
{
    blocks_are_read_after_the_sync(run);
    let ids = blocks_between(run.pre_block_id, tip);
    crate::bench::sizes::every_found_block_is_measured(ids, fetched);
    let models = step.blocks@.map_values(|b: BlockSize| b@);
    assert(models.len() == step.blocks@.len());
    assert forall|i: int| 0 <= i < step.blocks@.len() implies ({
        &&& (#[trigger] step.blocks@[i]).block_id == run.pre_block_id + 1 + i
        &&& step.blocks@[i].block_bytes == match fetched[i]->Some_0.bytes {
            Some(bytes) => bytes,
            None => 0,
        }
    }) by {
        assert(models[i] == step.blocks@[i]@);
    }
}

/// The blocks of a step are listed in ascending order, from the first after the
/// height before it up to the tip.
pub proof fn blocks_are_listed_in_order(pre_block_id: u64, tip: u64, i: int)
    requires
        pre_block_id < u64::MAX,
    ensures
        blocks_between(pre_block_id, tip).len() == if pre_block_id < tip {
            (tip - pre_block_id) as nat
        } else {
            0
        },
        0 <= i < blocks_between(pre_block_id, tip).len() ==> blocks_between(pre_block_id, tip)[i]
            == pre_block_id + 1 + i,
{
}

/// The blocks captured in a scenario are those of its steps, one step after the
/// other.
pub proof fn captured_blocks_are_those_of_the_steps(steps: Seq<StepResult>)
    ensures
        captured_blocks(steps) == steps.map_values(|s: StepResult| s.blocks@).flatten(),
    decreases steps.len(),
{
    let lists = steps.map_values(|s: StepResult| s.blocks@);
    lists.lemma_flatten_and_flatten_alt_are_equivalent();
    if steps.len() > 0 {
        captured_blocks_are_those_of_the_steps(steps.drop_last());
        let fewer = steps.drop_last().map_values(|s: StepResult| s.blocks@);
        fewer.lemma_flatten_and_flatten_alt_are_equivalent();
        assert(lists.drop_last() =~= fewer);
    }
}

/// The first column is as wide as the longest label in bytes, and at least as
/// wide as its title.
pub proof fn first_column_is_as_wide_as_needed(steps: Seq<StepResult>)
    ensures
        label_width(steps) >= 4,
        forall|i: int|
            0 <= i < steps.len() ==> vstd::utf8::encode_utf8(
                (#[trigger] steps[i]).label@,
            ).len() <= label_width(steps),
        label_width(steps) == 4 || exists|i: int|
            0 <= i < steps.len() && vstd::utf8::encode_utf8((#[trigger] steps[i]).label@).len()
                == label_width(steps),
    decreases steps.len(),
{
    if steps.len() > 0 {
        let fewer = steps.drop_last();
        let last = steps.len() - 1;
        first_column_is_as_wide_as_needed(fewer);
        assert forall|i: int| 0 <= i < steps.len() implies vstd::utf8::encode_utf8(
            (#[trigger] steps[i]).label@,
        ).len() <= label_width(steps) by {
            if i < last {
                assert(fewer[i] == steps[i]);
            }
        }
        if label_bytes(steps.last()) > label_width(fewer) {
            assert(vstd::utf8::encode_utf8(steps[last].label@).len() == label_width(steps));
        } else if label_width(steps) != 4 {
            let i = choose|i: int|
                0 <= i < fewer.len() && vstd::utf8::encode_utf8((#[trigger] fewer[i]).label@).len()
                    == label_width(fewer);
            assert(steps[i] == fewer[i]);
        }
    }
}

/// The lines of two groups of steps follow one another.
proof fn step_lines_follow(
    width: nat,
    first: Seq<StepResult>,
    first_times: Seq<StepTimes>,
    second: Seq<StepResult>,
    second_times: Seq<StepTimes>,
)
    requires
        first.len() == first_times.len(),
        second.len() == second_times.len(),
    ensures
        step_lines(width, first + second, first_times + second_times) == step_lines(
            width,
            first,
            first_times,
        ) + step_lines(width, second, second_times),
    decreases second.len(),
{
    let steps = first + second;
    let times = first_times + second_times;
    if second.len() == 0 {
        assert(steps =~= first);
        assert(times =~= first_times);
        assert(step_lines(width, first, first_times) + step_lines(width, second, second_times)
            =~= step_lines(width, first, first_times));
    } else {
        assert(steps.drop_last() =~= first + second.drop_last());
        assert(times.drop_last() =~= first_times + second_times.drop_last());
        step_lines_follow(
            width,
            first,
            first_times,
            second.drop_last(),
            second_times.drop_last(),
        );
        assert(step_lines(width, steps, times) =~= step_lines(width, first, first_times)
            + step_lines(width, second, second_times));
    }
}

/// A row of the table: the label to the left, the times to the right, with a dash
/// for a time that was not measured.
pub open spec fn row(width: nat, step: StepResult, times: StepTimes) -> Seq<char> {
    crate::text::left_aligned(step.label@, width) + "  "@ + crate::text::right_aligned(
        times.submit@,
        10,
    ) + "  "@ + crate::text::right_aligned(
        match times.inclusion {
            Some(text) => text@,
            None => "-"@,
        },
        12,
    ) + "  "@ + crate::text::right_aligned(
        match times.wallet_sync {
            Some(text) => text@,
            None => "-"@,
        },
        10,
    ) + "  "@ + crate::text::right_aligned(times.total@, 16) + "\n"@
}

/// Every step has its row in the report, and the rows stand in the order of the
/// steps: the places at which the rows of two steps begin are returned.
pub proof fn every_step_has_its_row(
    result: ScenarioResult,
    times: ScenarioTimes,
    i: int,
    j: int,
) -> (places: (int, int))
    requires
        times.steps@.len() == result.steps@.len(),
        0 <= i < j < result.steps@.len(),
    ensures
        ({
            let text = scenario_text(result, times);
            let width = label_width(result.steps@);
            let first = row(width, result.steps@[i], times.steps@[i]);
            let second = row(width, result.steps@[j], times.steps@[j]);
            &&& 0 <= places.0
            &&& places.0 + first.len() <= places.1
            &&& places.1 + second.len() <= text.len()
            &&& text.subrange(places.0, places.0 + first.len()) == first
            &&& text.subrange(places.1, places.1 + second.len()) == second
        }),
{
    let text = scenario_text(result, times);
    let steps = result.steps@;
    let shown = times.steps@;
    let width = label_width(steps);
    let lines = step_lines(width, steps, shown);
    let start = text.len() - crate::bench::sizes::size_summary_text(captured_blocks(steps)).len()
        - lines.len();
    assert(text.subrange(start, start + lines.len()) =~= lines);
    let a = row_place(width, steps, shown, i);
    let b = row_place(width, steps, shown, j);
    let first = row(width, steps[i], shown[i]);
    let second = row(width, steps[j], shown[j]);
    rows_in_order(width, steps, shown, i, j);
    assert(text.subrange(start + a, start + a + first.len()) =~= lines.subrange(
        a,
        a + first.len(),
    ));
    assert(text.subrange(start + b, start + b + second.len()) =~= lines.subrange(
        b,
        b + second.len(),
    ));
    (start + a, start + b)
}

/// The place at which the line of a step begins among all lines.
proof fn row_place(
    width: nat,
    steps: Seq<StepResult>,
    times: Seq<StepTimes>,
    i: int,
) -> (place: int)
    requires
        times.len() == steps.len(),
        0 <= i < steps.len(),
    ensures
        place == step_lines(width, steps.take(i), times.take(i)).len(),
        place + row(width, steps[i], times[i]).len() <= step_lines(width, steps, times).len(),
        step_lines(width, steps, times).subrange(
            place,
            place + row(width, steps[i], times[i]).len(),
        ) == row(width, steps[i], times[i]),
{
    let before = step_lines(width, steps.take(i), times.take(i));
    let line = row(width, steps[i], times[i]);
    let after = step_lines(width, steps.skip(i + 1), times.skip(i + 1));
    let upto = steps.take(i + 1);
    let times_upto = times.take(i + 1);
    assert(upto.drop_last() =~= steps.take(i));
    assert(times_upto.drop_last() =~= times.take(i));
    assert(step_lines(width, upto, times_upto) == before + line);
    step_lines_follow(width, upto, times_upto, steps.skip(i + 1), times.skip(i + 1));
    assert(upto + steps.skip(i + 1) =~= steps);
    assert(times_upto + times.skip(i + 1) =~= times);
    crate::text::stands_between(before, line, after);
    before.len() as int
}

/// The line of a later step begins behind the line of an earlier one.
proof fn rows_in_order(
    width: nat,
    steps: Seq<StepResult>,
    times: Seq<StepTimes>,
    i: int,
    j: int,
)
    requires
        times.len() == steps.len(),
        0 <= i < j < steps.len(),
    ensures
        step_lines(width, steps.take(i), times.take(i)).len() + row(
            width,
            steps[i],
            times[i],
        ).len() <= step_lines(width, steps.take(j), times.take(j)).len(),
{
    let place = row_place(width, steps.take(j), times.take(j), i);
    assert(steps.take(j).take(i) =~= steps.take(i));
    assert(times.take(j).take(i) =~= times.take(i));
}

/// The report as a whole: the title with the scenario's name and times, the
/// titles of the columns, a rule, one row for each step, and the summary of the
/// sizes of all blocks of all steps.
pub proof fn report_is_complete(result: ScenarioResult, times: ScenarioTimes)
    requires
        times.steps@.len() == result.steps@.len(),
    ensures
        ({
            let width = label_width(result.steps@);
            let head = "\nScenario: "@ + result.name@ + " (setup "@ + times.setup_ms@ + " ms ("@
                + times.setup_s@ + "s), total "@ + times.total_ms@ + " ms ("@ + times.total_s@
                + "s))\n"@ + (crate::text::left_aligned("step"@, width) + "  "@
                + crate::text::right_aligned("submit_s"@, 10) + "  "@
                + crate::text::right_aligned("inclusion_s"@, 12) + "  "@
                + crate::text::right_aligned("sync_s"@, 10) + "  "@
                + crate::text::right_aligned("total_s"@, 16) + "\n"@) + crate::text::repeated(
                '-',
                width + 62,
            ) + "\n"@;
            let rows = Seq::new(
                result.steps@.len(),
                |i: int| row(width, result.steps@[i], times.steps@[i]),
            ).flatten();
            let summary = crate::bench::sizes::size_summary_text(
                result.steps@.map_values(|s: StepResult| s.blocks@).flatten(),
            );
            scenario_text(result, times) == head + rows + summary
        }),
{
    let width = label_width(result.steps@);
    rows_are_all_lines(width, result.steps@, times.steps@);
    captured_blocks_are_those_of_the_steps(result.steps@);
}

/// All lines together are the rows of the steps, one after the other.
proof fn rows_are_all_lines(width: nat, steps: Seq<StepResult>, times: Seq<StepTimes>)
    requires
        times.len() == steps.len(),
    ensures
        step_lines(width, steps, times) == Seq::new(
            steps.len(),
            |i: int| row(width, steps[i], times[i]),
        ).flatten(),
    decreases steps.len(),
{
    let rows = Seq::new(steps.len(), |i: int| row(width, steps[i], times[i]));
    rows.lemma_flatten_and_flatten_alt_are_equivalent();
    if steps.len() > 0 {
        let fewer_steps = steps.drop_last();
        let fewer_times = times.drop_last();
        let fewer = Seq::new(
            fewer_steps.len(),
            |i: int| row(width, fewer_steps[i], fewer_times[i]),
        );
        rows_are_all_lines(width, fewer_steps, fewer_times);
        fewer.lemma_flatten_and_flatten_alt_are_equivalent();
        assert(rows.drop_last() =~= fewer);
    }
}

/// Recording a step puts it behind the steps before it and adds its whole time,
/// not only a part of it, to the total. The rest of the result stays as it was.
pub proof fn recording_adds_the_whole_step(
    before: ScenarioResult,
    step: StepResult,
    after: ScenarioResult,
)
    requires
        recorded(before, step, after),
    ensures
        after.steps@.drop_last() == before.steps@,
        after.steps@.last() == step,
        after.total_nanos - before.total_nanos == step.total_nanos,
        after.name@ == before.name@,
        after.setup_nanos == before.setup_nanos,
        after.disk_before == before.disk_before,
        after.disk_after == before.disk_after,
        after.bedrock_finality_nanos == before.bedrock_finality_nanos,
{
    assert(after.steps@.drop_last() =~= before.steps@);
}

/// The times of steps add up: those of two groups are the sum of both, and a
/// single step counts with its whole time.
pub proof fn step_times_add_up(first: Seq<StepResult>, second: Seq<StepResult>, one: StepResult)
    ensures
        steps_nanos(first + second) == steps_nanos(first) + steps_nanos(second),
        steps_nanos(seq![one]) == one.total_nanos,
        steps_nanos(Seq::empty()) == 0,
    decreases second.len(),
{
    assert(seq![one].drop_last() =~= Seq::empty());
    reveal_with_fuel(steps_nanos, 2);
    if second.len() == 0 {
        assert(first + second =~= first);
    } else {
        step_times_add_up(first, second.drop_last(), one);
        assert((first + second).drop_last() =~= first + second.drop_last());
    }
}

/// A new result carries the scenario's name and nothing else.
pub proof fn a_new_result_is_empty(result: ScenarioResult, name: Seq<char>)
    requires
        is_new(result, name),
    ensures
        result.name@ == name,
        result.steps@.len() == 0,
        result.total_nanos == 0,
        result.setup_nanos == 0,
        result.disk_before is None,
        result.disk_after is None,
        result.bedrock_finality_nanos is None,
{
}

/// The time between two instants and back: one of the two is zero, and the other
/// is the distance.
pub proof fn time_does_not_run_backwards(from: u128, to: u128)
    ensures
        from <= to ==> from + nanos_between(from, to) == to,
        from >= to ==> nanos_between(from, to) == 0,
{
}

/// What each event of a step leads to. The wallet's return leads to the wait for a
/// chain that is two blocks further, unless an account was created. The wait ends
/// exactly when a report shows such a chain. The wallet is then synced to the last
/// block as it was read, and the blocks are read up to the tip as it was read.
pub proof fn each_event_leads_on(
    pre_block_id: u64,
    ret: WalletReturn,
    height: u64,
    number: u64,
    fetched: Vec<Option<FetchedBlock>>,
)
    requires
        pre_block_id + 2 <= u64::MAX,
    ensures
        step_action(pre_block_id, StepEvent::Returned { ret }) == if ret is RegisterAccount {
            StepAction::Finish
        } else {
            StepAction::WaitForChain { target: (pre_block_id + 2) as u64 }
        },
        step_action(pre_block_id, StepEvent::ChainReported { height }) == if height >= pre_block_id
            + 2 {
            StepAction::ReadLastBlock
        } else {
            StepAction::WaitForChain { target: (pre_block_id + 2) as u64 }
        },
        step_action(pre_block_id, StepEvent::LastBlockRead { id: number })
            == (StepAction::SyncWallet { to: number }),
        step_action(pre_block_id, StepEvent::WalletSynced { to: number }) == StepAction::ReadTip,
        step_action(pre_block_id, StepEvent::TipRead { tip: number }) == (StepAction::ReadBlocks {
            tip: number,
        }),
        step_action(pre_block_id, StepEvent::BlocksRead { fetched }) == StepAction::Finish,
{
}

/// Once the chain cannot get two blocks further, its last height is waited for.
pub proof fn last_height_is_enough(pre_block_id: u64, height: u64)
    requires
        pre_block_id + 2 > u64::MAX,
    ensures
        step_action(pre_block_id, StepEvent::ChainReported { height }) is ReadLastBlock <==> height
            == u64::MAX,
{
}

/// A report can be put together exactly if every step has its texts, every label
/// leaves room for the other columns, and the sizes of all blocks can be added
/// up.
pub proof fn what_a_report_needs(result: ScenarioResult, times: ScenarioTimes)
    ensures
        printable(result, times) <==> {
            &&& times.steps@.len() == result.steps@.len()
            &&& forall|i: int|
                0 <= i < result.steps@.len() ==> {
                    &&& (#[trigger] times.steps@[i]).inclusion is Some
                        == result.steps@[i].inclusion_nanos is Some
                    &&& times.steps@[i].wallet_sync is Some
                        == result.steps@[i].wallet_sync_nanos is Some
                }
            &&& forall|i: int|
                0 <= i < result.steps@.len() ==> vstd::utf8::encode_utf8(
                    (#[trigger] result.steps@[i]).label@,
                ).len() + 62 <= usize::MAX
            &&& crate::bench::sizes::sums_fit(
                result.steps@.map_values(|s: StepResult| s.blocks@).flatten(),
            )
        },
{
    captured_blocks_are_those_of_the_steps(result.steps@);
    let needed = {
        &&& times.steps@.len() == result.steps@.len()
        &&& forall|i: int|
            0 <= i < result.steps@.len() ==> {
                &&& (#[trigger] times.steps@[i]).inclusion is Some
                    == result.steps@[i].inclusion_nanos is Some
                &&& times.steps@[i].wallet_sync is Some
                    == result.steps@[i].wallet_sync_nanos is Some
            }
        &&& forall|i: int|
            0 <= i < result.steps@.len() ==> vstd::utf8::encode_utf8(
                (#[trigger] result.steps@[i]).label@,
            ).len() + 62 <= usize::MAX
        &&& crate::bench::sizes::sums_fit(
            result.steps@.map_values(|s: StepResult| s.blocks@).flatten(),
        )
    };
    if printable(result, times) {
        assert forall|i: int| 0 <= i < result.steps@.len() implies ({
            &&& (#[trigger] times.steps@[i]).inclusion is Some
                == result.steps@[i].inclusion_nanos is Some
            &&& times.steps@[i].wallet_sync is Some == result.steps@[i].wallet_sync_nanos is Some
        }) by {
            assert(shows_step(times.steps@[i], result.steps@[i]));
        }
        assert forall|i: int| 0 <= i < result.steps@.len() implies vstd::utf8::encode_utf8(
            (#[trigger] result.steps@[i]).label@,
        ).len() + 62 <= usize::MAX by {
            assert(label_bytes(result.steps@[i]) + 62 <= usize::MAX);
        }
        assert(needed);
    }
}

} // verus!
