//! Scenarios as plans: the wallet operations of a scenario in their order.
//!
//! A plan speaks of accounts by the order of their creation. [`Progress`]
//! follows the execution of a plan and knows which accounts came out of it.
use crate::bench::harness::{finalize_step, ScenarioResult, StepEvent, StepRun, WalletReturn};
use crate::token::AccountId;
use vstd::prelude::*;
use vstd::string::StringExecFns;

verus! {

/// Who can see an account.
#[derive(Debug, Clone, Copy, PartialEq, Eq, Structural)]
pub enum AccountKind {
    Public,
    Private,
}

/// An account of the scenario: `slot` counts the accounts that were created
/// before it.
#[derive(Debug, Clone, Copy, PartialEq, Eq, Structural)]
pub struct Mention {
    pub kind: AccountKind,
    pub slot: usize,
}

/// The tokens that the scenarios create.
#[derive(Debug, Clone, Copy, PartialEq, Eq, Structural)]
pub enum TokenName {
    TokA,
    TokB,
    ParToken,
    PrivToken,
}

impl TokenName {
    /// The name under which the token is created.
    pub open spec fn text_spec(self) -> Seq<char> {
        match self {
            TokenName::TokA => "TokA"@,
            TokenName::TokB => "TokB"@,
            TokenName::ParToken => "ParToken"@,
            TokenName::PrivToken => "PrivToken"@,
        }
    }

    /// The name under which the token is created.
    pub fn text(&self) -> (name: String)
        ensures
            name@ == self.text_spec(),
    {
        match self {
            TokenName::TokA => "TokA".to_owned(),
            TokenName::TokB => "TokB".to_owned(),
            TokenName::ParToken => "ParToken".to_owned(),
            TokenName::PrivToken => "PrivToken".to_owned(),
        }
    }
}

/// An operation of the wallet.
#[derive(Debug, Clone, Copy, PartialEq, Eq, Structural)]
pub enum Command {
    /// Create an account.
    CreateAccount { kind: AccountKind },
    /// Create a token and put its whole supply into an account.
    TokenNew { definition: Mention, supply: Mention, token: TokenName, total_supply: u128 },
    /// Send an amount of a token from one account to another.
    TokenSend { from: Mention, to: Mention, amount: u128 },
    /// Create a pool of two tokens.
    AmmNew {
        user_holding_a: Mention,
        user_holding_b: Mention,
        user_holding_lp: Mention,
        balance_a: u128,
        balance_b: u128,
    },
    /// Swap an exact amount of token A for token B.
    AmmSwapExactInput {
        user_holding_a: Mention,
        user_holding_b: Mention,
        amount_in: u128,
        min_amount_out: u128,
        token_definition: Mention,
    },
    /// Add to both sides of a pool.
    AmmAddLiquidity {
        user_holding_a: Mention,
        user_holding_b: Mention,
        user_holding_lp: Mention,
        min_amount_lp: u128,
        max_amount_a: u128,
        max_amount_b: u128,
    },
    /// Take a share out of a pool.
    AmmRemoveLiquidity {
        user_holding_a: Mention,
        user_holding_b: Mention,
        user_holding_lp: Mention,
        balance_lp: u128,
        min_amount_a: u128,
        min_amount_b: u128,
    },
}

/// A timed operation.
#[derive(Debug, Clone)]
pub struct PlannedStep {
    pub label: String,
    pub command: Command,
}

/// The contents of a [`PlannedStep`].
#[verifier::ext_equal]
pub struct StepModel {
    pub label: Seq<char>,
    pub command: Command,
}

impl View for PlannedStep {
    type V = StepModel;

    open spec fn view(&self) -> StepModel {
        StepModel { label: self.label@, command: self.command }
    }
}

/// A public account.
pub open spec fn public(slot: int) -> Mention {
    Mention { kind: AccountKind::Public, slot: slot as usize }
}

/// A private account.
pub open spec fn private(slot: int) -> Mention {
    Mention { kind: AccountKind::Private, slot: slot as usize }
}

/// A step that creates an account.
pub open spec fn create_step(label: Seq<char>, kind: AccountKind) -> StepModel {
    StepModel { label, command: Command::CreateAccount { kind } }
}

/// A step that sends an amount of a token.
pub open spec fn send_step(label: Seq<char>, from: Mention, to: Mention, amount: u128) -> StepModel {
    StepModel { label, command: Command::TokenSend { from, to, amount } }
}

/// The contents of several steps.
pub open spec fn steps_view(steps: Seq<PlannedStep>) -> Seq<StepModel> {
    steps.map_values(|s: PlannedStep| s@)
}

/// The operations of several steps.
pub open spec fn commands_of(steps: Seq<StepModel>) -> Seq<Command> {
    steps.map_values(|s: StepModel| s.command)
}

/// The accounts that several operations create, in order.
pub open spec fn created(commands: Seq<Command>) -> Seq<AccountKind>
    decreases commands.len(),
{
    if commands.len() == 0 {
        Seq::empty()
    } else {
        match commands.last() {
            Command::CreateAccount { kind } => created(commands.drop_last()).push(kind),
            _ => created(commands.drop_last()),
        }
    }
}

/// Whether an account is one of those created.
pub open spec fn known(mention: Mention, accounts: Seq<AccountKind>) -> bool {
    mention.slot < accounts.len() && accounts[mention.slot as int] == mention.kind
}

/// Whether an operation speaks of created accounts only.
pub open spec fn mentions_known(command: Command, accounts: Seq<AccountKind>) -> bool {
    match command {
        Command::CreateAccount { .. } => true,
        Command::TokenNew { definition, supply, .. } => known(definition, accounts) && known(
            supply,
            accounts,
        ),
        Command::TokenSend { from, to, .. } => known(from, accounts) && known(to, accounts),
        Command::AmmNew { user_holding_a, user_holding_b, user_holding_lp, .. } => known(
            user_holding_a,
            accounts,
        ) && known(user_holding_b, accounts) && known(user_holding_lp, accounts),
        Command::AmmSwapExactInput { user_holding_a, user_holding_b, token_definition, .. } =>
            known(user_holding_a, accounts) && known(user_holding_b, accounts) && known(
            token_definition,
            accounts,
        ),
        Command::AmmAddLiquidity { user_holding_a, user_holding_b, user_holding_lp, .. } => known(
            user_holding_a,
            accounts,
        ) && known(user_holding_b, accounts) && known(user_holding_lp, accounts),
        Command::AmmRemoveLiquidity { user_holding_a, user_holding_b, user_holding_lp, .. } =>
            known(user_holding_a, accounts) && known(user_holding_b, accounts) && known(
            user_holding_lp,
            accounts,
        ),
    }
}

/// `amount` if the account is the one at `slot`, else nothing.
pub open spec fn amount_at(mention: Mention, slot: int, amount: u128) -> int {
    if mention.slot == slot {
        amount as int
    } else {
        0
    }
}

/// What an operation surely adds to the tokens of the account at `slot`, less
/// what it takes from it at most. Shares of pools do not count.
pub open spec fn flow(command: Command, slot: int) -> int {
    match command {
        Command::CreateAccount { .. } => 0,
        Command::TokenNew { supply, total_supply, .. } => amount_at(supply, slot, total_supply),
        Command::TokenSend { from, to, amount } => amount_at(to, slot, amount) - amount_at(
            from,
            slot,
            amount,
        ),
        Command::AmmNew { user_holding_a, user_holding_b, balance_a, balance_b, .. } => -amount_at(
            user_holding_a,
            slot,
            balance_a,
        ) - amount_at(user_holding_b, slot, balance_b),
        Command::AmmSwapExactInput {
            user_holding_a,
            user_holding_b,
            amount_in,
            min_amount_out,
            ..
        } => amount_at(user_holding_b, slot, min_amount_out) - amount_at(
            user_holding_a,
            slot,
            amount_in,
        ),
        Command::AmmAddLiquidity {
            user_holding_a,
            user_holding_b,
            max_amount_a,
            max_amount_b,
            ..
        } => -amount_at(user_holding_a, slot, max_amount_a) - amount_at(
            user_holding_b,
            slot,
            max_amount_b,
        ),
        Command::AmmRemoveLiquidity {
            user_holding_a,
            user_holding_b,
            min_amount_a,
            min_amount_b,
            ..
        } => amount_at(user_holding_a, slot, min_amount_a) + amount_at(
            user_holding_b,
            slot,
            min_amount_b,
        ),
    }
}

/// The tokens that the account at `slot` is left with at least after several
/// operations.
pub open spec fn balance(commands: Seq<Command>, slot: int) -> int
    decreases commands.len(),
{
    if commands.len() == 0 {
        0
    } else {
        balance(commands.drop_last(), slot) + flow(commands.last(), slot)
    }
}

/// Whether operations can be carried out one after the other: each speaks only
/// of accounts created before it, and no account ever spends more tokens than
/// it has.
#[verifier::opaque]
pub open spec fn feasible(commands: Seq<Command>) -> bool {
    &&& forall|i: int|
        #![trigger commands[i]]
        0 <= i < commands.len() ==> mentions_known(commands[i], created(commands.take(i)))
    &&& forall|i: int, slot: int|
        0 <= i <= commands.len() ==> #[trigger] balance(commands.take(i), slot) >= 0
}

/// One more operation keeps a plan feasible if it speaks of created accounts
/// and overdraws none.
proof fn feasible_push(commands: Seq<Command>, command: Command)
    requires
        feasible(commands),
        mentions_known(command, created(commands)),
        forall|slot: int| balance(commands, slot) + #[trigger] flow(command, slot) >= 0,
    ensures
        feasible(commands.push(command)),
        forall|slot: int| #[trigger]
            balance(commands.push(command), slot) == balance(commands, slot) + flow(command, slot),
        created(commands.push(command)) == match command {
            Command::CreateAccount { kind } => created(commands).push(kind),
            _ => created(commands),
        },
{
    reveal(feasible);
    let more = commands.push(command);
    assert(more.drop_last() =~= commands);
    assert forall|i: int| #![trigger more[i]] 0 <= i < more.len() implies mentions_known(
        more[i],
        created(more.take(i)),
    ) by {
        assert(more.take(i) =~= commands.take(i));
        if i == commands.len() {
            assert(commands.take(i) =~= commands);
        } else {
            assert(more[i] == commands[i]);
        }
    }
    assert forall|i: int, slot: int| 0 <= i <= more.len() implies #[trigger] balance(
        more.take(i),
        slot,
    ) >= 0 by {
        if i == more.len() {
            assert(more.take(i) =~= more);
            assert(flow(command, slot) == flow(command, slot));
        } else {
            assert(more.take(i) =~= commands.take(i));
            assert(balance(commands.take(i), slot) >= 0);
        }
    }
}

/// A scenario: its timed steps, and the operations that are submitted at once
/// behind them.
#[derive(Debug)]
pub struct Plan {
    pub name: String,
    pub steps: Vec<PlannedStep>,
    pub burst: Vec<Command>,
}

impl Plan {
    /// The steps of the plan.
    pub open spec fn steps_spec(self) -> Seq<StepModel> {
        steps_view(self.steps@)
    }

    /// All operations of the plan in order.
    pub open spec fn commands(self) -> Seq<Command> {
        commands_of(self.steps_spec()) + self.burst@
    }

    /// Whether the plan can be carried out. Accounts are created one by one,
    /// so the burst creates none.
    pub open spec fn wf(self) -> bool {
        &&& feasible(self.commands())
        &&& forall|i: int| 0 <= i < self.burst@.len() ==> !(#[trigger] self.burst@[i] is CreateAccount)
    }

    /// A plan without operations.
    pub fn new(name: &str) -> (plan: Self)
        ensures
            plan.name@ == name@,
            plan.steps_spec() == Seq::<StepModel>::empty(),
            plan.burst@ == Seq::<Command>::empty(),
            plan.commands() == Seq::<Command>::empty(),
            plan.wf(),
    {
        let plan = Plan { name: name.to_owned(), steps: Vec::new(), burst: Vec::new() };
        reveal(feasible);
        assert(plan.steps_spec() =~= Seq::empty());
        assert(plan.commands() =~= Seq::empty());
        assert forall|i: int, slot: int| 0 <= i <= plan.commands().len() implies #[trigger] balance(
            plan.commands().take(i),
            slot,
        ) >= 0 by {
            assert(plan.commands().take(i) =~= Seq::empty());
        }
        plan
    }

    /// Adds a timed step.
    pub fn add_step(&mut self, label: String, command: Command)
        requires
            old(self).wf(),
            old(self).burst@.len() == 0,
            mentions_known(command, created(old(self).commands())),
            forall|slot: int|
                balance(old(self).commands(), slot) + #[trigger] flow(command, slot) >= 0,
        ensures
            final(self).wf(),
            final(self).name == old(self).name,
            final(self).burst@.len() == 0,
            final(self).steps_spec() == old(self).steps_spec().push(
                StepModel { label: label@, command },
            ),
            final(self).commands() == old(self).commands().push(command),
            forall|slot: int| #[trigger]
                balance(final(self).commands(), slot) == balance(old(self).commands(), slot)
                    + flow(command, slot),
            created(final(self).commands()) == match command {
                Command::CreateAccount { kind } => created(old(self).commands()).push(kind),
                _ => created(old(self).commands()),
            },
    {
        proof {
            feasible_push(self.commands(), command);
        }
        self.steps.push(PlannedStep { label, command });
        assert(self.steps_spec() =~= old(self).steps_spec().push(
            StepModel { label: label@, command },
        ));
        assert(self.commands() =~= old(self).commands().push(command));
    }

    /// Adds the creation of an account.
    pub fn create(&mut self, label: &str, kind: AccountKind) -> (account: Mention)
        requires
            old(self).wf(),
            old(self).burst@.len() == 0,
            created(old(self).commands()).len() <= usize::MAX,
        ensures
            final(self).wf(),
            final(self).name == old(self).name,
            final(self).burst@.len() == 0,
            final(self).steps_spec() == old(self).steps_spec().push(
                StepModel { label: label@, command: Command::CreateAccount { kind } },
            ),
            forall|slot: int| #[trigger]
                balance(final(self).commands(), slot) == balance(old(self).commands(), slot),
            created(final(self).commands()) == created(old(self).commands()).push(kind),
            account.kind == kind,
            account.slot == created(old(self).commands()).len(),
    {
        let slot: usize = self.count_created();
        proof {
            reveal(feasible);
            assert(self.commands().take(self.commands().len() as int) =~= self.commands());
        }
        self.add_step(label.to_owned(), Command::CreateAccount { kind });
        Mention { kind, slot }
    }

    /// Counts the accounts that the steps create.
    fn count_created(&self) -> (n: usize)
        requires
            self.burst@.len() == 0,
            created(self.commands()).len() <= usize::MAX,
        ensures
            n == created(self.commands()).len(),
    {
        let ghost all = self.commands();
        assert(all =~= commands_of(self.steps_spec()));
        let mut n: usize = 0;
        let mut i: usize = 0;
        assert(all.take(0) =~= Seq::empty());
        while i < self.steps.len()
            invariant
                all == commands_of(self.steps_spec()),
                all.len() == self.steps@.len(),
                created(all).len() <= usize::MAX,
                i <= self.steps@.len(),
                n == created(all.take(i as int)).len(),
            decreases self.steps@.len() - i,
        {
            proof {
                let upto = all.take(i + 1);
                assert(upto.drop_last() =~= all.take(i as int));
                assert(upto.last() == self.steps@[i as int].command);
                created_of_prefix(all, i + 1);
            }
            match self.steps[i].command {
                Command::CreateAccount { .. } => {
                    n = n + 1;
                },
                _ => {},
            }
            i = i + 1;
        }
        assert(all.take(i as int) =~= all);
        n
    }

    /// Adds an operation that is submitted together with others at the end.
    pub fn add_burst(&mut self, command: Command)
        requires
            old(self).wf(),
            !(command is CreateAccount),
            mentions_known(command, created(old(self).commands())),
            forall|slot: int|
                balance(old(self).commands(), slot) + #[trigger] flow(command, slot) >= 0,
        ensures
            final(self).wf(),
            final(self).name == old(self).name,
            final(self).steps == old(self).steps,
            final(self).burst@ == old(self).burst@.push(command),
            forall|slot: int| #[trigger]
                balance(final(self).commands(), slot) == balance(old(self).commands(), slot)
                    + flow(command, slot),
            created(final(self).commands()) == created(old(self).commands()),
    {
        proof {
            feasible_push(self.commands(), command);
        }
        self.burst.push(command);
        assert(self.commands() =~= old(self).commands().push(command));
    }
}

/// Fewer operations create no more accounts, and create them in the same order.
pub proof fn created_of_prefix(commands: Seq<Command>, n: int)
    requires
        0 <= n <= commands.len(),
    ensures
        created(commands.take(n)).len() <= created(commands).len(),
        forall|slot: int|
            0 <= slot < created(commands.take(n)).len() ==> created(commands.take(n))[slot]
                == #[trigger] created(commands)[slot],
    decreases commands.len(),
{
    if n == commands.len() {
        assert(commands.take(n) =~= commands);
    } else {
        created_of_prefix(commands.drop_last(), n);
        assert(commands.drop_last().take(n) =~= commands.take(n));
    }
}

/// How far a plan has been carried out.
#[derive(Debug)]
pub struct Progress {
    done: usize,
    accounts: Vec<AccountId>,
}

impl Progress {
    /// The number of steps that are done.
    pub closed spec fn done_spec(self) -> nat {
        self.done as nat
    }

    /// The accounts that came out of the steps so far.
    pub closed spec fn accounts_spec(self) -> Seq<AccountId> {
        self.accounts@
    }

    /// Whether this is the progress of `plan`: there is one account for every
    /// step that creates one and is done.
    pub open spec fn follows(self, plan: Plan) -> bool {
        &&& self.done_spec() <= plan.steps@.len()
        &&& self.accounts_spec().len() == created(
            commands_of(plan.steps_spec()).take(self.done_spec() as int),
        ).len()
    }

    /// No step is done yet.
    pub fn start(plan: &Plan) -> (progress: Self)
        ensures
            progress.done_spec() == 0,
            progress.accounts_spec() == Seq::<AccountId>::empty(),
            progress.follows(*plan),
    {
        let progress = Progress { done: 0, accounts: Vec::new() };
        assert(commands_of(plan.steps_spec()).take(0) =~= Seq::empty());
        progress
    }

    /// The step that is next, if there is one.
    pub fn next_step<'a>(&self, plan: &'a Plan) -> (step: Option<&'a PlannedStep>)
        requires
            self.follows(*plan),
        ensures
            match step {
                Some(s) => self.done_spec() < plan.steps@.len() && *s
                    == plan.steps@[self.done_spec() as int],
                None => self.done_spec() == plan.steps@.len(),
            },
    {
        if self.done < plan.steps.len() {
            Some(&plan.steps[self.done])
        } else {
            None
        }
    }

    /// Takes note of what the wallet returned from the next step. The creation
    /// of an account has to return the account; anything else is an error and
    /// leaves the progress as it was.
    pub fn step_done(&mut self, plan: &Plan, ret: &WalletReturn) -> (res: Result<
        (),
        UnexpectedReturn,
    >)
        requires
            old(self).follows(*plan),
            old(self).done_spec() < plan.steps@.len(),
        ensures
            final(self).follows(*plan),
            match (plan.steps@[old(self).done_spec() as int].command, *ret) {
                (
                    Command::CreateAccount { .. },
                    WalletReturn::RegisterAccount { account_id },
                ) => {
                    &&& res is Ok
                    &&& final(self).done_spec() == old(self).done_spec() + 1
                    &&& final(self).accounts_spec() == old(self).accounts_spec().push(account_id)
                },
                (Command::CreateAccount { .. }, _) => {
                    &&& res is Err
                    &&& *final(self) == *old(self)
                },
                _ => {
                    &&& res is Ok
                    &&& final(self).done_spec() == old(self).done_spec() + 1
                    &&& final(self).accounts_spec() == old(self).accounts_spec()
                },
            },
    {
        let len: usize = plan.steps.len();
        proof {
            assert(self.done < len);
            let all = commands_of(plan.steps_spec());
            let upto = all.take(self.done + 1);
            assert(upto.drop_last() =~= all.take(self.done as int));
            assert(upto.last() == plan.steps@[self.done as int].command);
        }
        match plan.steps[self.done].command {
            Command::CreateAccount { .. } => match ret {
                WalletReturn::RegisterAccount { account_id } => {
                    self.accounts.push(*account_id);
                },
                _ => {
                    return Err(UnexpectedReturn);
                },
            },
            _ => {},
        }
        self.done = self.done + 1;
        Ok(())
    }

    /// The account that a mention stands for, if it has been created.
    pub fn account(&self, mention: Mention) -> (id: Option<AccountId>)
        ensures
            id == if mention.slot < self.accounts_spec().len() {
                Some(self.accounts_spec()[mention.slot as int])
            } else {
                None
            },
    {
        if mention.slot < self.accounts.len() {
            Some(self.accounts[mention.slot])
        } else {
            None
        }
    }
}

/// The wallet returned something else than the account that it was to create.
#[derive(Debug, Clone, Copy, PartialEq, Eq, Structural)]
pub struct UnexpectedReturn;

impl UnexpectedReturn {
    /// Reports what was returned instead.
    pub fn message(&self, got: &str) -> (text: String)
        ensures
            text@ == "expected RegisterAccount, got "@ + got@,
    {
        let mut text = "expected RegisterAccount, got ".to_owned();
        text.append(got);
        text
    }
}

/// Operations that create no account leave those created before them as they
/// are.
proof fn created_unchanged(before: Seq<Command>, after: Seq<Command>)
    requires
        forall|i: int| 0 <= i < after.len() ==> !(#[trigger] after[i] is CreateAccount),
    ensures
        created(before + after) == created(before),
    decreases after.len(),
{
    if after.len() == 0 {
        assert(before + after =~= before);
    } else {
        let all = before + after;
        assert(all.drop_last() =~= before + after.drop_last());
        assert(all.last() == after[after.len() - 1]);
        created_unchanged(before, after.drop_last());
    }
}

/// Whenever a step of a plan comes up, every account that it speaks of has been
/// created, and is of the kind that the step takes it for.
pub proof fn mentioned_accounts_exist(plan: Plan, progress: Progress)
    requires
        plan.wf(),
        progress.follows(plan),
        progress.done_spec() < plan.steps@.len(),
    ensures
        ({
            let accounts = created(
                commands_of(plan.steps_spec()).take(progress.done_spec() as int),
            );
            &&& accounts.len() == progress.accounts_spec().len()
            &&& mentions_known(plan.steps@[progress.done_spec() as int].command, accounts)
        }),
{
    reveal(feasible);
    let done = progress.done_spec() as int;
    let commands = plan.commands();
    assert(commands[done] == plan.steps@[done].command);
    assert(commands.take(done) =~= commands_of(plan.steps_spec()).take(done));
}

/// Once all steps of a plan are done, every account that the burst speaks of has
/// been created.
pub proof fn burst_accounts_exist(plan: Plan, progress: Progress, i: int)
    requires
        plan.wf(),
        progress.follows(plan),
        progress.done_spec() == plan.steps@.len(),
        0 <= i < plan.burst@.len(),
    ensures
        ({
            let accounts = created(commands_of(plan.steps_spec()));
            &&& accounts.len() == progress.accounts_spec().len()
            &&& mentions_known(plan.burst@[i], accounts)
        }),
{
    reveal(feasible);
    let steps = commands_of(plan.steps_spec());
    let commands = plan.commands();
    let at = steps.len() + i;
    assert(steps.take(steps.len() as int) =~= steps);
    assert(commands[at] == plan.burst@[i]);
    assert(commands.take(at) =~= steps + plan.burst@.take(i));
    created_unchanged(steps, plan.burst@.take(i));
}

/// Whether `result` holds exactly the steps that are done, under the labels of
/// the plan and in the plan's order.
pub open spec fn records(result: ScenarioResult, plan: Plan, progress: Progress) -> bool {
    &&& progress.follows(plan)
    &&& result.name@ == plan.name@
    &&& result.steps@.len() == progress.done_spec()
    &&& forall|i: int|
        0 <= i < result.steps@.len() ==> (#[trigger] result.steps@[i]).label@
            == plan.steps@[i].label@
}

/// Records the next step of a plan, once it is done: under its label, behind the
/// steps before it. The step is recorded also if its return is unexpected.
pub fn finish_step(
    progress: &mut Progress,
    plan: &Plan,
    result: &mut ScenarioResult,
    run: &StepRun,
    finished: u128,
) -> (res: Result<(), UnexpectedReturn>)
    requires
        old(progress).follows(*plan),
        old(progress).done_spec() < plan.steps@.len(),
        run.complete(),
        old(result).total_nanos + crate::bench::harness::nanos_between(run.started, finished)
            <= u128::MAX,
    ensures
        final(progress).follows(*plan),
        final(result).steps@.len() > 0,
        crate::bench::harness::is_final(
            final(result).steps@.last(),
            plan.steps@[old(progress).done_spec() as int].label@,
            *run,
            finished,
        ),
        crate::bench::harness::recorded(
            *old(result),
            final(result).steps@.last(),
            *final(result),
        ),
        match (plan.steps@[old(progress).done_spec() as int].command, run.ret()) {
            (
                Command::CreateAccount { .. },
                WalletReturn::RegisterAccount { account_id },
            ) => {
                &&& res is Ok
                &&& final(progress).done_spec() == old(progress).done_spec() + 1
                &&& final(progress).accounts_spec() == old(progress).accounts_spec().push(
                    account_id,
                )
            },
            (Command::CreateAccount { .. }, _) => {
                &&& res is Err
                &&& *final(progress) == *old(progress)
            },
            _ => {
                &&& res is Ok
                &&& final(progress).done_spec() == old(progress).done_spec() + 1
                &&& final(progress).accounts_spec() == old(progress).accounts_spec()
            },
        },
        res is Ok && records(*old(result), *plan, *old(progress)) ==> records(
            *final(result),
            *plan,
            *final(progress),
        ),
{
    let label = plan.steps[progress.done].label.clone();
    let step = finalize_step(label, run, finished);
    let ghost recorded_step = step;
    result.push(step);
    assert(result.steps@.last() == recorded_step);
    let res = match &run.log[0].event {
        StepEvent::Returned { ret } => progress.step_done(plan, ret),
        _ => vstd::pervasive::unreached(),
    };
    proof {
        if res is Ok && records(*old(result), *plan, *old(progress)) {
            assert forall|i: int| 0 <= i < result.steps@.len() implies (
            #[trigger] result.steps@[i]).label@ == plan.steps@[i].label@ by {
                if i < old(result).steps@.len() {
                    assert(result.steps@[i] == old(result).steps@[i]);
                }
            }
        }
    }
    res
}

/// Nothing is recorded of a plan that has just been started.
pub proof fn a_new_result_records_the_start(plan: Plan, progress: Progress, result: ScenarioResult)
    requires
        progress.follows(plan),
        progress.done_spec() == 0,
        crate::bench::harness::is_new(result, plan.name@),
    ensures
        records(result, plan, progress),
{
}

/// Once all steps of a plan are done, the recorded steps are those of the plan:
/// as many, under the same labels, in the same order.
pub proof fn recorded_steps_are_those_of_the_plan(
    plan: Plan,
    progress: Progress,
    result: ScenarioResult,
)
    requires
        records(result, plan, progress),
        progress.done_spec() == plan.steps@.len(),
    ensures
        result.name@ == plan.name@,
        result.steps@.map_values(|s: crate::bench::harness::StepResult| s.label@)
            == plan.steps_spec().map_values(|s: StepModel| s.label),
{
    assert(result.steps@.map_values(|s: crate::bench::harness::StepResult| s.label@)
        =~= plan.steps_spec().map_values(|s: StepModel| s.label));
}

/// The accounts that several operations create are those of the creations among
/// them, in order; no other operation creates one.
pub proof fn only_creations_create(commands: Seq<Command>)
    ensures
        created(commands) == commands.filter(|c: Command| c is CreateAccount).map_values(
            |c: Command| c->kind,
        ),
    decreases commands.len(),
{
    let creates = |c: Command| c is CreateAccount;
    let kind = |c: Command| c->kind;
    reveal(Seq::filter);
    if commands.len() > 0 {
        let fewer = commands.drop_last();
        only_creations_create(fewer);
        assert(fewer.filter(creates).push(commands.last()).map_values(kind) =~= fewer.filter(
            creates,
        ).map_values(kind).push(kind(commands.last())));
    }
    assert(created(commands) =~= commands.filter(creates).map_values(kind));
}

/// Tokens that go from one account to another are neither lost nor made: what the
/// sender loses the receiver gets, and no other account is touched. A new token
/// goes to its supply account alone.
pub proof fn transfers_move_tokens(from: Mention, to: Mention, amount: u128, slot: int)
    ensures
        from.slot != to.slot ==> flow(
            Command::TokenSend { from, to, amount },
            from.slot as int,
        ) == -(amount as int),
        from.slot != to.slot ==> flow(Command::TokenSend { from, to, amount }, to.slot as int)
            == amount,
        slot != from.slot && slot != to.slot ==> flow(
            Command::TokenSend { from, to, amount },
            slot,
        ) == 0,
        from.slot == to.slot ==> flow(Command::TokenSend { from, to, amount }, slot) == 0,
{
}

/// The name under which each token is created.
pub proof fn tokens_have_their_names(token: TokenName)
    ensures
        token is TokA ==> token.text_spec() == "TokA"@,
        token is TokB ==> token.text_spec() == "TokB"@,
        token is ParToken ==> token.text_spec() == "ParToken"@,
        token is PrivToken ==> token.text_spec() == "PrivToken"@,
{
}

/// What is recorded of a plan so far: as many steps as are done, each under the
/// label of its own step.
pub proof fn done_steps_are_recorded(
    plan: Plan,
    progress: Progress,
    result: ScenarioResult,
    i: int,
)
    requires
        records(result, plan, progress),
        0 <= i < progress.done_spec(),
    ensures
        result.steps@.len() == progress.done_spec(),
        result.name@ == plan.name@,
        result.steps@[i].label@ == plan.steps@[i].label@,
        progress.done_spec() <= plan.steps@.len(),
{
}

/// While a plan is carried out there is one account for every creation that is
/// done, and none besides.
pub proof fn one_account_for_each_creation(plan: Plan, progress: Progress)
    requires
        progress.follows(plan),
    ensures
        progress.accounts_spec().len() == plan.steps@.take(
            progress.done_spec() as int,
        ).filter(|s: PlannedStep| s.command is CreateAccount).len(),
{
    let done = progress.done_spec() as int;
    let steps = plan.steps@.take(done);
    let commands = commands_of(plan.steps_spec()).take(done);
    assert(commands =~= steps.map_values(|s: PlannedStep| s.command));
    creations_are_counted(steps);
}

/// Steps create as many accounts as there are creations among them.
proof fn creations_are_counted(steps: Seq<PlannedStep>)
    ensures
        created(steps.map_values(|s: PlannedStep| s.command)).len() == steps.filter(
            |s: PlannedStep| s.command is CreateAccount,
        ).len(),
    decreases steps.len(),
{
    reveal(Seq::filter);
    if steps.len() > 0 {
        let fewer = steps.drop_last();
        creations_are_counted(fewer);
        assert(steps.map_values(|s: PlannedStep| s.command).drop_last() =~= fewer.map_values(
            |s: PlannedStep| s.command,
        ));
    }
}

} // verus!
