//! Parallel-fanout throughput scenario. N distinct senders each transfer one token
//! to one recipient. Submission is serialised through the single wallet but does
//! not wait for chain advance between submits, so all N txs land in the same
//! block. Measures observed throughput.
use crate::bench::harness::{capture_blocks, StepResult, STEP_MIN_BLOCKS};
use crate::bench::plan::{AccountKind, Command, Mention, Plan, TokenName};
use crate::bench::polling::chain_target;
use crate::bench::sizes::{BlockSize, FetchedBlock};
use crate::text::{numbered, push_decimal};
use vstd::prelude::*;
use vstd::string::StringExecFns;

verus! {

/// The number of senders, and of recipients.
pub const PARALLEL_FANOUT_N: usize = 10;

/// What each sender transfers.
pub const AMOUNT_PER_TRANSFER: u128 = 100;

/// What each sender is funded with: five times what it transfers.
pub const AMOUNT_PER_SENDER: u128 = AMOUNT_PER_TRANSFER * 5;

/// The supply of the token: ten times what all senders transfer.
pub const TOTAL_MINT: u128 = PARALLEL_FANOUT_N as u128 * AMOUNT_PER_TRANSFER * 10;

/// The account that holds the definition of the token.
pub open spec fn definition() -> Mention {
    crate::bench::plan::public(0)
}

/// The account that holds the supply of the token.
pub open spec fn master() -> Mention {
    crate::bench::plan::public(1)
}

/// The `i`-th sender.
pub open spec fn sender(i: int) -> Mention {
    crate::bench::plan::public(2 + i)
}

/// The `i`-th recipient.
pub open spec fn recipient(i: int) -> Mention {
    crate::bench::plan::public(2 + PARALLEL_FANOUT_N + i)
}

/// The creation of accounts numbered from zero.
pub open spec fn create_steps(prefix: Seq<char>, n: nat) -> Seq<crate::bench::plan::StepModel> {
    Seq::new(
        n,
        |i: int|
            crate::bench::plan::create_step(
                prefix + crate::text::two_digits(i as nat),
                AccountKind::Public,
            ),
    )
}

/// The funding of the first `n` senders.
pub open spec fn fund_steps(n: nat) -> Seq<crate::bench::plan::StepModel> {
    Seq::new(
        n,
        |i: int|
            crate::bench::plan::send_step(
                "fund_sender_"@ + crate::text::two_digits(i as nat),
                master(),
                sender(i),
                AMOUNT_PER_SENDER,
            ),
    )
}

/// The steps that set the accounts up, before the token is created.
pub open spec fn account_steps() -> Seq<crate::bench::plan::StepModel> {
    seq![
        crate::bench::plan::create_step("create_acc_def"@, AccountKind::Public),
        crate::bench::plan::create_step("create_acc_master"@, AccountKind::Public),
    ] + create_steps("create_sender_"@, PARALLEL_FANOUT_N as nat) + create_steps(
        "create_recipient_"@,
        PARALLEL_FANOUT_N as nat,
    )
}

/// The steps of the scenario: the accounts, the token, and the funding of the
/// senders.
pub open spec fn steps() -> Seq<crate::bench::plan::StepModel> {
    account_steps() + seq![
        crate::bench::plan::StepModel {
            label: "token_new_fungible"@,
            command: Command::TokenNew {
                definition: definition(),
                supply: master(),
                token: TokenName::ParToken,
                total_supply: TOTAL_MINT,
            },
        },
    ] + fund_steps(PARALLEL_FANOUT_N as nat)
}

/// The measured transfers: each sender to its recipient.
pub open spec fn burst(n: nat) -> Seq<Command> {
    Seq::new(
        n,
        |i: int|
            Command::TokenSend { from: sender(i), to: recipient(i), amount: AMOUNT_PER_TRANSFER },
    )
}

/// Whether `plan` has `n` accounts, all of them public.
pub open spec fn all_public(plan: Plan, n: int) -> bool {
    let accounts = crate::bench::plan::created(plan.commands());
    &&& accounts.len() == n
    &&& forall|slot: int| 0 <= slot < n ==> #[trigger] accounts[slot] == AccountKind::Public
}

/// Adds the creation of numbered accounts.
fn create_accounts(plan: &mut Plan, prefix: &str) -> (accounts: Vec<Mention>)
    requires
        old(plan).wf(),
        old(plan).burst@.len() == 0,
        exists|n: int| n <= 100 && all_public(*old(plan), n),
    ensures
        final(plan).wf(),
        final(plan).name == old(plan).name,
        final(plan).burst@.len() == 0,
        final(plan).steps_spec() == old(plan).steps_spec() + create_steps(
            prefix@,
            PARALLEL_FANOUT_N as nat,
        ),
        forall|slot: int| #[trigger]
            crate::bench::plan::balance(final(plan).commands(), slot)
                == crate::bench::plan::balance(old(plan).commands(), slot),
        all_public(
            *final(plan),
            crate::bench::plan::created(old(plan).commands()).len() + PARALLEL_FANOUT_N,
        ),
        accounts@ == Seq::new(
            PARALLEL_FANOUT_N as nat,
            |i: int|
                crate::bench::plan::public(
                    crate::bench::plan::created(old(plan).commands()).len() + i,
                ),
        ),
{
    let ghost first = crate::bench::plan::created(old(plan).commands()).len() as int;
    let mut accounts: Vec<Mention> = Vec::new();
    let mut i: usize = 0;
    assert(plan.steps_spec() =~= old(plan).steps_spec() + create_steps(prefix@, 0));
    while i < PARALLEL_FANOUT_N
        invariant
            i <= PARALLEL_FANOUT_N,
            plan.wf(),
            plan.name == old(plan).name,
            plan.burst@.len() == 0,
            plan.steps_spec() == old(plan).steps_spec() + create_steps(prefix@, i as nat),
            forall|slot: int| #[trigger]
                crate::bench::plan::balance(plan.commands(), slot)
                    == crate::bench::plan::balance(old(plan).commands(), slot),
            0 <= first <= 100,
            all_public(*plan, first + i),
            accounts@ == Seq::new(i as nat, |j: int| crate::bench::plan::public(first + j)),
        decreases PARALLEL_FANOUT_N - i,
    {
        let label = numbered(prefix, i);
        let account = plan.create(label.as_str(), AccountKind::Public);
        accounts.push(account);
        i = i + 1;
        assert(plan.steps_spec() =~= old(plan).steps_spec() + create_steps(prefix@, i as nat));
        assert(accounts@ =~= Seq::new(i as nat, |j: int| crate::bench::plan::public(first + j)));
    }
    accounts
}

/// The plan of the scenario. All its accounts are public.
pub fn run() -> (plan: Plan)
    ensures
        plan.name@ == "parallel_fanout"@,
        plan.steps_spec() == steps(),
        plan.burst@ == burst(PARALLEL_FANOUT_N as nat),
        plan.wf(),
        all_public(plan, 2 + 2 * PARALLEL_FANOUT_N),
{
    let mut plan = Plan::new("parallel_fanout");
    let def = plan.create("create_acc_def", AccountKind::Public);
    let supply = plan.create("create_acc_master", AccountKind::Public);
    assert(all_public(plan, 2));
    let senders = create_accounts(&mut plan, "create_sender_");
    let recipients = create_accounts(&mut plan, "create_recipient_");
    assert(plan.steps_spec() =~= account_steps());
    plan.add_step(
        "token_new_fungible".to_owned(),
        Command::TokenNew {
            definition: def,
            supply,
            token: TokenName::ParToken,
            total_supply: TOTAL_MINT,
        },
    );
    let ghost before_funding = plan.steps_spec();
    let mut i: usize = 0;
    assert(plan.steps_spec() =~= before_funding + fund_steps(0));
    while i < PARALLEL_FANOUT_N
        invariant
            i <= PARALLEL_FANOUT_N,
            plan.wf(),
            plan.name@ == "parallel_fanout"@,
            plan.burst@.len() == 0,
            plan.steps_spec() == before_funding + fund_steps(i as nat),
            supply == master(),
            senders@ == Seq::new(PARALLEL_FANOUT_N as nat, |j: int| sender(j)),
            all_public(plan, 2 + 2 * PARALLEL_FANOUT_N),
            forall|slot: int| #[trigger]
                crate::bench::plan::balance(plan.commands(), slot) == if slot == 1 {
                    TOTAL_MINT - i * AMOUNT_PER_SENDER
                } else if 2 <= slot < 2 + i {
                    AMOUNT_PER_SENDER as int
                } else {
                    0
                },
        decreases PARALLEL_FANOUT_N - i,
    {
        plan.add_step(
            numbered("fund_sender_", i),
            Command::TokenSend { from: supply, to: senders[i], amount: AMOUNT_PER_SENDER },
        );
        i = i + 1;
        assert(plan.steps_spec() =~= before_funding + fund_steps(i as nat));
    }
    assert(plan.steps_spec() =~= steps());
    i = 0;
    assert(plan.burst@ =~= burst(0));
    while i < PARALLEL_FANOUT_N
        invariant
            i <= PARALLEL_FANOUT_N,
            plan.wf(),
            plan.name@ == "parallel_fanout"@,
            plan.steps_spec() == steps(),
            plan.burst@ == burst(i as nat),
            senders@ == Seq::new(PARALLEL_FANOUT_N as nat, |j: int| sender(j)),
            recipients@ == Seq::new(PARALLEL_FANOUT_N as nat, |j: int| recipient(j)),
            all_public(plan, 2 + 2 * PARALLEL_FANOUT_N),
            forall|slot: int|
                i <= slot - 2 < PARALLEL_FANOUT_N ==> #[trigger] crate::bench::plan::balance(
                    plan.commands(),
                    slot,
                ) == AMOUNT_PER_SENDER,
            forall|slot: int| #[trigger] crate::bench::plan::balance(plan.commands(), slot) >= 0,
        decreases PARALLEL_FANOUT_N - i,
    {
        plan.add_burst(
            Command::TokenSend {
                from: senders[i],
                to: recipients[i],
                amount: AMOUNT_PER_TRANSFER,
            },
        );
        i = i + 1;
        assert(plan.burst@ =~= burst(i as nat));
    }
    plan
}

/// What happened last in the burst.
#[derive(Debug)]
pub enum BurstEvent {
    /// The burst begins.
    Started,
    /// The transfer with this number was submitted.
    Submitted { i: usize },
    /// The sequencer reported the height of the chain.
    ChainReported { height: u64 },
    /// The last block was asked for.
    TipRead { tip: u64 },
    /// The blocks of the burst were asked for; those not found are missing.
    BlocksRead { fetched: Vec<Option<FetchedBlock>> },
}

/// What the burst does next.
#[derive(Debug, Clone, Copy, PartialEq, Eq, Structural)]
pub enum BurstAction {
    /// Submit the transfer with this number.
    Submit { i: usize },
    /// Ask for the height of the chain until it reaches the target.
    WaitForChain { target: u64 },
    /// Ask for the last block.
    ReadTip,
    /// Ask for the blocks of the burst.
    ReadBlocks { tip: u64 },
    /// The burst is done.
    Finish,
}

/// What a burst of `n` transfers does next, when the chain stood at
/// `pre_block_id` before it. It does not wait between two transfers.
pub open spec fn burst_action(pre_block_id: u64, n: usize, event: BurstEvent) -> BurstAction {
    let target = crate::bench::harness::step_target(pre_block_id);
    match event {
        BurstEvent::Started => if n > 0 {
            BurstAction::Submit { i: 0 }
        } else {
            BurstAction::WaitForChain { target }
        },
        BurstEvent::Submitted { i } => if i + 1 < n {
            BurstAction::Submit { i: (i + 1) as usize }
        } else {
            BurstAction::WaitForChain { target }
        },
        BurstEvent::ChainReported { height } => if height >= target {
            BurstAction::ReadTip
        } else {
            BurstAction::WaitForChain { target }
        },
        BurstEvent::TipRead { tip } => BurstAction::ReadBlocks { tip },
        BurstEvent::BlocksRead { .. } => BurstAction::Finish,
    }
}

/// Whether an event is what an action leads to.
pub open spec fn burst_answers(pre_block_id: u64, action: BurstAction, event: BurstEvent) -> bool {
    match (action, event) {
        (BurstAction::Submit { i }, BurstEvent::Submitted { i: submitted }) => submitted == i,
        (BurstAction::WaitForChain { .. }, BurstEvent::ChainReported { .. }) => true,
        (BurstAction::ReadTip, BurstEvent::TipRead { .. }) => true,
        (BurstAction::ReadBlocks { tip }, BurstEvent::BlocksRead { fetched }) => fetched@.len()
            == crate::bench::harness::blocks_between(pre_block_id, tip).len(),
        _ => false,
    }
}

/// An event of the burst and the time at which it happened.
#[derive(Debug)]
pub struct TimedBurstEvent {
    pub event: BurstEvent,
    pub at: u128,
}

/// A burst of `n` transfers while it is carried out: the height of the chain
/// before it, and what has happened since it began.
#[derive(Debug)]
pub struct BurstRun {
    pub pre_block_id: u64,
    pub n: usize,
    pub log: Vec<TimedBurstEvent>,
}

impl BurstRun {
    /// The action that the `i`-th event led to.
    pub open spec fn action_after(self, i: int) -> BurstAction {
        burst_action(self.pre_block_id, self.n, self.log@[i].event)
    }

    /// Whether the burst has begun, and every event answered the action before
    /// it.
    pub open spec fn wf(self) -> bool {
        &&& self.log@.len() > 0
        &&& self.log@[0].event is Started
        &&& forall|i: int|
            #![trigger self.log@[i]]
            1 <= i < self.log@.len() ==> burst_answers(
                self.pre_block_id,
                self.action_after(i - 1),
                self.log@[i].event,
            )
    }

    /// Whether the burst is done.
    pub open spec fn complete(self) -> bool {
        &&& self.wf()
        &&& self.action_after(self.log@.len() - 1) is Finish
    }

    /// A burst that has just begun.
    pub fn begin(pre_block_id: u64, n: usize, started: u128) -> (run: Self)
        ensures
            run.pre_block_id == pre_block_id,
            run.n == n,
            run.log@ == seq![TimedBurstEvent { event: BurstEvent::Started, at: started }],
            run.wf(),
    {
        let mut log: Vec<TimedBurstEvent> = Vec::new();
        log.push(TimedBurstEvent { event: BurstEvent::Started, at: started });
        let run = BurstRun { pre_block_id, n, log };
        assert(run.log@ =~= seq![TimedBurstEvent { event: BurstEvent::Started, at: started }]);
        run
    }

    /// Says what to do next.
    pub fn next_action(&self) -> (action: BurstAction)
        requires
            self.wf(),
        ensures
            action == self.action_after(self.log@.len() - 1),
    {
        let target: u64 = chain_target(self.pre_block_id, STEP_MIN_BLOCKS);
        match &self.log[self.log.len() - 1].event {
            BurstEvent::Started => if self.n > 0 {
                BurstAction::Submit { i: 0 }
            } else {
                BurstAction::WaitForChain { target }
            },
            BurstEvent::Submitted { i } => if self.n > 0 && *i < self.n - 1 {
                BurstAction::Submit { i: *i + 1 }
            } else {
                BurstAction::WaitForChain { target }
            },
            BurstEvent::ChainReported { height } => if *height >= target {
                BurstAction::ReadTip
            } else {
                BurstAction::WaitForChain { target }
            },
            BurstEvent::TipRead { tip } => BurstAction::ReadBlocks { tip: *tip },
            BurstEvent::BlocksRead { .. } => BurstAction::Finish,
        }
    }

    /// Takes note of an event.
    pub fn happened(&mut self, event: BurstEvent, at: u128)
        requires
            old(self).wf(),
            burst_answers(
                old(self).pre_block_id,
                old(self).action_after(old(self).log@.len() - 1),
                event,
            ),
        ensures
            final(self).wf(),
            final(self).pre_block_id == old(self).pre_block_id,
            final(self).n == old(self).n,
            final(self).log@ == old(self).log@.push(TimedBurstEvent { event, at }),
    {
        self.log.push(TimedBurstEvent { event, at });
        proof {
            let before = *old(self);
            assert forall|i: int|
                #![trigger self.log@[i]]
                1 <= i < self.log@.len() implies burst_answers(
                self.pre_block_id,
                self.action_after(i - 1),
                self.log@[i].event,
            ) by {
                assert(self.log@[i - 1] == before.log@[i - 1]);
                if i < before.log@.len() {
                    assert(self.log@[i] == before.log@[i]);
                }
            }
        }
    }
}

/// The order inside a burst: first all transfers are submitted, one after the
/// other and nothing in between; then the sequencer reported a chain that had
/// advanced far enough; then the tip was read, and the blocks up to it.
pub open spec fn burst_in_order(run: BurstRun) -> bool {
    let m = run.log@.len();
    &&& m >= run.n + 4
    &&& run.log@[0].event is Started
    &&& forall|i: int|
        0 <= i < run.n ==> (#[trigger] run.log@[i + 1]).event == (BurstEvent::Submitted {
            i: i as usize,
        })
    &&& run.log@[m - 3].event matches BurstEvent::ChainReported { height }
    &&& height >= crate::bench::harness::step_target(run.pre_block_id)
    &&& run.log@[m - 2].event matches BurstEvent::TipRead { tip }
    &&& run.log@[m - 1].event matches BurstEvent::BlocksRead { fetched }
    &&& fetched@.len() == crate::bench::harness::blocks_between(run.pre_block_id, tip).len()
}

/// The first events of a burst that is done are its submissions, in order.
proof fn submissions_come_first(run: BurstRun, k: int)
    requires
        run.complete(),
        0 <= k <= run.n,
    ensures
        run.log@.len() > k + 1,
        k > 0 ==> run.log@[k].event == (BurstEvent::Submitted { i: (k - 1) as usize }),
    decreases k,
{
    if k > 0 {
        submissions_come_first(run, k - 1);
        assert(burst_answers(run.pre_block_id, run.action_after(k - 1), run.log@[k].event));
    }
}

/// Every burst that is done submitted all its transfers before it waited, and
/// read the blocks only after the chain had advanced far enough.
pub proof fn burst_waits_after_all_submissions(run: BurstRun)
    requires
        run.complete(),
    ensures
        burst_in_order(run),
{
    let m = run.log@.len();
    submissions_come_first(run, run.n as int);
    assert forall|i: int| 0 <= i < run.n implies (#[trigger] run.log@[i + 1]).event == (
    BurstEvent::Submitted { i: i as usize }) by {
        submissions_come_first(run, i + 1);
    }
    assert(burst_answers(run.pre_block_id, run.action_after(m - 2), run.log@[m - 1].event));
    assert(run.log@[m - 2].event is TipRead);
    assert(burst_answers(run.pre_block_id, run.action_after(m - 3), run.log@[m - 2].event));
    assert(run.log@[m - 3].event is ChainReported);
    if m - 3 <= run.n {
        submissions_come_first(run, m - 3);
    }
}

/// What is recorded of a burst that is done, as a single step: the time in which
/// the transfers were submitted, and the wait for the chain behind it.
pub open spec fn is_burst(step: StepResult, run: BurstRun) -> bool {
    let m = run.log@.len();
    let started = run.log@[0].at;
    let submitted = run.log@[run.n as int].at;
    let included = run.log@[m - 3].at;
    &&& step.label@ == "burst_"@ + crate::text::decimal(run.n as nat) + "_transfers"@
    &&& step.submit_nanos == crate::bench::harness::nanos_between(started, submitted)
    &&& step.inclusion_nanos == Some(crate::bench::harness::nanos_between(submitted, included))
    &&& step.wallet_sync_nanos is None
    &&& step.total_nanos == crate::bench::harness::nanos_between(started, included)
    &&& step.tx_hash is None
    &&& step.blocks@.map_values(|b: BlockSize| b@) == crate::bench::sizes::measured_blocks(
        crate::bench::harness::blocks_between(run.pre_block_id, run.log@[m - 2].event->tip),
        run.log@[m - 1].event->fetched@,
    )
}

/// Puts together what the burst took, once it is done.
pub fn burst_step(run: &BurstRun) -> (step: StepResult)
    requires
        run.complete(),
    ensures
        burst_in_order(*run),
        is_burst(step, *run),
{
    proof {
        burst_waits_after_all_submissions(*run);
    }
    let m: usize = run.log.len();
    let started: u128 = run.log[0].at;
    let submitted: u128 = run.log[run.n].at;
    let included: u128 = run.log[m - 3].at;
    let blocks = match (&run.log[m - 2].event, &run.log[m - 1].event) {
        (BurstEvent::TipRead { tip }, BurstEvent::BlocksRead { fetched }) => capture_blocks(
            run.pre_block_id,
            *tip,
            fetched,
        ),
        _ => vstd::pervasive::unreached(),
    };
    let mut label = "burst_".to_owned();
    push_decimal(&mut label, run.n as u128);
    label.append("_transfers");
    StepResult {
        label,
        submit_nanos: submitted.saturating_sub(started),
        inclusion_nanos: Some(included.saturating_sub(submitted)),
        wallet_sync_nanos: None,
        total_nanos: included.saturating_sub(started),
        tx_hash: None,
        blocks,
    }
}

/// A burst takes as long as its submission and the wait behind it together.
pub proof fn burst_time_splits(burst_started: u128, all_submitted_at: u128, inclusion_done_at: u128)
    requires
        burst_started <= all_submitted_at <= inclusion_done_at,
    ensures
        crate::bench::harness::nanos_between(burst_started, all_submitted_at) + crate::bench::harness::nanos_between(
            all_submitted_at,
            inclusion_done_at,
        ) == crate::bench::harness::nanos_between(burst_started, inclusion_done_at),
{
}

/// A report of a chain that is far enough is the third event from the end.
#[verifier::spinoff_prover]
proof fn sufficient_report_is_followed_by_two_events(run: BurstRun, j: int)
    requires
        run.complete(),
        0 <= j < run.log@.len(),
        run.log@[j].event matches BurstEvent::ChainReported { height } && height
            >= crate::bench::harness::step_target(run.pre_block_id),
    ensures
        j == run.log@.len() - 3,
{
    let m = run.log@.len();
    assert(run.action_after(j) is ReadTip);
    assert(j + 1 < m);
    assert(burst_answers(run.pre_block_id, run.action_after(j), run.log@[j + 1].event));
    assert(run.action_after(j + 1) is ReadBlocks);
    assert(j + 2 < m);
    assert(burst_answers(run.pre_block_id, run.action_after(j + 1), run.log@[j + 2].event));
    assert(run.action_after(j + 2) is Finish);
    if j + 3 < m {
        assert(burst_answers(run.pre_block_id, run.action_after(j + 2), run.log@[j + 3].event));
    }
}

/// In a burst that is done, every event behind the submissions up to the third
/// from the end is a report of the chain, and all of them but the last were too
/// low.
#[verifier::spinoff_prover]
proof fn burst_reports_before_the_last_are_low(run: BurstRun, j: int)
    requires
        run.complete(),
        run.n < j <= run.log@.len() - 3,
    ensures
        run.log@[j].event is ChainReported,
        j < run.log@.len() - 3 ==> run.log@[j].event->height < run.pre_block_id + 2
            && run.log@[j].event->height < u64::MAX,
    decreases j,
{
    if j > run.n + 1 {
        burst_reports_before_the_last_are_low(run, j - 1);
    } else {
        submissions_come_first(run, run.n as int);
    }
    assert(burst_answers(run.pre_block_id, run.action_after(j - 1), run.log@[j].event));
    assert(run.log@[j].event is ChainReported);
    if j < run.log@.len() - 3 && run.log@[j].event->height >= crate::bench::harness::step_target(
        run.pre_block_id,
    ) {
        sufficient_report_is_followed_by_two_events(run, j);
    }
}

/// What the times of a burst mean, as long as the clock does not go back. The
/// submission lasts until the last transfer is submitted. The wait ends with the
/// first report of a chain that is two blocks further than before the burst, which
/// is the event returned here, and the burst takes until then.
pub proof fn burst_times_follow_one_another(step: StepResult, run: BurstRun) -> (first: int)
    requires
        run.complete(),
        is_burst(step, run),
        forall|i: int, j: int|
            0 <= i <= j < run.log@.len() ==> run.log@[i].at <= run.log@[j].at,
    ensures
        run.n < first < run.log@.len(),
        run.log@[first].event matches BurstEvent::ChainReported { height } && (height
            >= run.pre_block_id + 2 || height == u64::MAX),
        forall|j: int|
            run.n < j < first ==> ((#[trigger] run.log@[j]).event matches
                BurstEvent::ChainReported { height } && height < run.pre_block_id + 2 && height
                < u64::MAX),
        run.n > 0 ==> run.log@[run.n as int].event == (BurstEvent::Submitted {
            i: (run.n - 1) as usize,
        }),
        step.submit_nanos == run.log@[run.n as int].at - run.log@[0].at,
        step.inclusion_nanos == Some((run.log@[first].at - run.log@[run.n as int].at) as u128),
        step.total_nanos == run.log@[first].at - run.log@[0].at,
        step.wallet_sync_nanos is None,
        step.tx_hash is None,
{
    burst_waits_after_all_submissions(run);
    submissions_come_first(run, run.n as int);
    let first = run.log@.len() - 3;
    if first <= run.n {
        submissions_come_first(run, first);
    }
    assert forall|j: int| run.n < j < first implies ((
    #[trigger] run.log@[j]).event matches BurstEvent::ChainReported { height } && height
        < run.pre_block_id + 2 && height < u64::MAX) by {
        burst_reports_before_the_last_are_low(run, j);
    }
    assert(run.log@[0].at <= run.log@[run.n as int].at <= run.log@[first].at);
    first
}

/// The blocks of a burst are those after the height before it up to the tip that
/// was read last: if every one of them was found, there is one measurement for
/// each.
pub proof fn blocks_of_a_burst(
    step: StepResult,
    run: BurstRun,
    tip: u64,
    fetched: Seq<Option<FetchedBlock>>,
)
    requires
        run.complete(),
        is_burst(step, run),
        run.log@[run.log@.len() - 2].event == (BurstEvent::TipRead { tip }),
        run.log@.last().event matches BurstEvent::BlocksRead { fetched: f } && f@ == fetched,
        run.pre_block_id <= tip,
        run.pre_block_id < u64::MAX,
        forall|i: int| 0 <= i < fetched.len() ==> #[trigger] fetched[i] is Some,
    ensures
        step.blocks@.len() == tip - run.pre_block_id,
        forall|i: int|
            0 <= i < step.blocks@.len() ==> (#[trigger] step.blocks@[i]).block_id
                == run.pre_block_id + 1 + i,
{
    burst_waits_after_all_submissions(run);
    let ids = crate::bench::harness::blocks_between(run.pre_block_id, tip);
    crate::bench::sizes::every_found_block_is_measured(ids, fetched);
    let models = step.blocks@.map_values(|b: BlockSize| b@);
    assert(models.len() == step.blocks@.len());
    assert forall|i: int| 0 <= i < step.blocks@.len() implies (#[trigger] step.blocks@[i]).block_id
        == run.pre_block_id + 1 + i by {
        assert(models[i] == step.blocks@[i]@);
    }
}

/// The label of a burst tells how many transfers it had: bursts of different sizes
/// have different labels.
pub proof fn bursts_are_told_apart(a: StepResult, b: StepResult, run_a: BurstRun, run_b: BurstRun)
    requires
        is_burst(a, run_a),
        is_burst(b, run_b),
        a.label@ == b.label@,
    ensures
        run_a.n == run_b.n,
{
    reveal_strlit("_transfers");
    let x = crate::text::decimal(run_a.n as nat) + "_transfers"@;
    let y = crate::text::decimal(run_b.n as nat) + "_transfers"@;
    assert(a.label@ =~= "burst_"@ + x);
    assert(b.label@ =~= "burst_"@ + y);
    crate::text::same_beginning_cancels("burst_"@, x, y);
    crate::text::numbers_are_told_apart(
        run_a.n as nat,
        run_b.n as nat,
        "_transfers"@,
        "_transfers"@,
    );
}

/// What each sender goes through: it is created, funded from the master with five
/// times what it transfers, and sends one share to its own recipient. The supply
/// covers twice what all senders are funded with.
pub proof fn each_sender_serves_its_recipient(i: int)
    requires
        0 <= i < 10,
    ensures
        steps().len() == 33,
        steps()[0].label == "create_acc_def"@,
        steps()[1].label == "create_acc_master"@,
        steps()[2 + i].label == "create_sender_"@ + crate::text::two_digits(i as nat),
        steps()[2 + i].command == (Command::CreateAccount { kind: AccountKind::Public }),
        steps()[12 + i].label == "create_recipient_"@ + crate::text::two_digits(i as nat),
        steps()[12 + i].command == (Command::CreateAccount { kind: AccountKind::Public }),
        steps()[22].label == "token_new_fungible"@,
        steps()[22].command matches Command::TokenNew { definition, supply, token, total_supply }
            && definition.slot == 0 && supply.slot == 1 && token == TokenName::ParToken
            && total_supply == 10 * 100 * 10,
        steps()[23 + i].label == "fund_sender_"@ + crate::text::two_digits(i as nat),
        steps()[23 + i].command matches Command::TokenSend { from, to, amount } && from.slot == 1
            && to.slot == 2 + i && amount == 5 * 100,
        burst(10).len() == 10,
        burst(10)[i] matches Command::TokenSend { from, to, amount } && from.slot == 2 + i
            && to.slot == 12 + i && amount == 100,
{
}

/// What each event of a burst leads to. The transfers are submitted one after the
/// other, from the first to the last, and only the last submission leads to the
/// wait for a chain that is two blocks further.
pub proof fn each_burst_event_leads_on(
    pre_block_id: u64,
    n: usize,
    i: usize,
    height: u64,
    tip: u64,
    fetched: Vec<Option<FetchedBlock>>,
)
    requires
        pre_block_id + 2 <= u64::MAX,
    ensures
        n > 0 ==> burst_action(pre_block_id, n, BurstEvent::Started) == (BurstAction::Submit {
            i: 0,
        }),
        i + 1 < n ==> burst_action(pre_block_id, n, BurstEvent::Submitted { i })
            == (BurstAction::Submit { i: (i + 1) as usize }),
        i + 1 >= n ==> burst_action(pre_block_id, n, BurstEvent::Submitted { i })
            == (BurstAction::WaitForChain { target: (pre_block_id + 2) as u64 }),
        burst_action(pre_block_id, n, BurstEvent::ChainReported { height }) == if height
            >= pre_block_id + 2 {
            BurstAction::ReadTip
        } else {
            BurstAction::WaitForChain { target: (pre_block_id + 2) as u64 }
        },
        burst_action(pre_block_id, n, BurstEvent::TipRead { tip }) == (BurstAction::ReadBlocks {
            tip,
        }),
        burst_action(pre_block_id, n, BurstEvent::BlocksRead { fetched }) == BurstAction::Finish,
{
}

} // verus!
