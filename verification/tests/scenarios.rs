use lez_events::bench::harness::{ScenarioResult, StepEvent, StepRun, WalletReturn};
use lez_events::bench::plan::{
    finish_step, AccountKind, Command, Mention, Plan, Progress, TokenName, UnexpectedReturn,
};
use lez_events::bench::scenarios::parallel::{burst_step, BurstAction, BurstEvent, BurstRun};
use lez_events::bench::scenarios::{amm, parallel, private, run_scenario, PlannedScenario};
use lez_events::bench::sizes::FetchedBlock;
use lez_events::token::AccountId;

fn public(slot: usize) -> Mention {
    Mention { kind: AccountKind::Public, slot }
}

fn hidden(slot: usize) -> Mention {
    Mention { kind: AccountKind::Private, slot }
}

fn labels(plan: &Plan) -> Vec<&str> {
    plan.steps.iter().map(|s| s.label.as_str()).collect()
}

fn mentions(command: &Command) -> Vec<Mention> {
    match *command {
        Command::CreateAccount { .. } => vec![],
        Command::TokenNew { definition, supply, .. } => vec![definition, supply],
        Command::TokenSend { from, to, .. } => vec![from, to],
        Command::AmmNew { user_holding_a, user_holding_b, user_holding_lp, .. } => {
            vec![user_holding_a, user_holding_b, user_holding_lp]
        }
        Command::AmmSwapExactInput { user_holding_a, user_holding_b, token_definition, .. } => {
            vec![user_holding_a, user_holding_b, token_definition]
        }
        Command::AmmAddLiquidity { user_holding_a, user_holding_b, user_holding_lp, .. } => {
            vec![user_holding_a, user_holding_b, user_holding_lp]
        }
        Command::AmmRemoveLiquidity { user_holding_a, user_holding_b, user_holding_lp, .. } => {
            vec![user_holding_a, user_holding_b, user_holding_lp]
        }
    }
}

#[test]
fn amm_steps() {
    let plan = amm::run();
    assert_eq!(plan.name, "amm_swap_flow");
    assert_eq!(
        labels(&plan),
        vec![
            "create_acc_def_a",
            "create_acc_supply_a",
            "create_acc_user_a",
            "create_acc_def_b",
            "create_acc_supply_b",
            "create_acc_user_b",
            "create_acc_user_lp",
            "token_a_new",
            "token_a_fund_user",
            "token_b_new",
            "token_b_fund_user",
            "amm_new_pool",
            "amm_swap_exact_input",
            "amm_add_liquidity",
            "amm_remove_liquidity",
        ]
    );
    assert_eq!(
        plan.steps[9].command,
        Command::TokenNew {
            definition: public(3),
            supply: public(4),
            token: TokenName::TokB,
            total_supply: 10_000,
        }
    );
    assert_eq!(
        plan.steps[12].command,
        Command::AmmSwapExactInput {
            user_holding_a: public(2),
            user_holding_b: public(5),
            amount_in: 50,
            min_amount_out: 1,
            token_definition: public(0),
        }
    );
    assert!(plan.burst.is_empty());
}

#[test]
fn private_steps() {
    let plan = private::run();
    assert_eq!(plan.name, "private_chained_flow");
    assert_eq!(plan.steps.len(), 9);
    assert_eq!(plan.steps[3].label, "create_acc_priv_a");
    assert_eq!(
        plan.steps[3].command,
        Command::CreateAccount { kind: AccountKind::Private }
    );
    assert_eq!(plan.steps[6].label, "shielded_transfer");
    assert_eq!(
        plan.steps[6].command,
        Command::TokenSend { from: public(1), to: hidden(3), amount: 1_000 }
    );
    assert_eq!(
        plan.steps[7].command,
        Command::TokenSend { from: hidden(3), to: public(2), amount: 100 }
    );
    assert_eq!(
        plan.steps[8].command,
        Command::TokenSend { from: hidden(3), to: hidden(4), amount: 200 }
    );
}

#[test]
fn parallel_steps() {
    let plan = parallel::run();
    assert_eq!(plan.name, "parallel_fanout");
    assert_eq!(plan.steps.len(), 33);
    let labels = labels(&plan);
    assert_eq!(labels[0], "create_acc_def");
    assert_eq!(labels[1], "create_acc_master");
    assert_eq!(labels[2], "create_sender_00");
    assert_eq!(labels[11], "create_sender_09");
    assert_eq!(labels[12], "create_recipient_00");
    assert_eq!(labels[22], "token_new_fungible");
    assert_eq!(labels[23], "fund_sender_00");
    assert_eq!(labels[32], "fund_sender_09");
    assert_eq!(
        plan.steps[22].command,
        Command::TokenNew {
            definition: public(0),
            supply: public(1),
            token: TokenName::ParToken,
            total_supply: 10_000,
        }
    );
    assert_eq!(
        plan.steps[26].command,
        Command::TokenSend { from: public(1), to: public(5), amount: 500 }
    );
    assert_eq!(plan.burst.len(), 10);
    assert_eq!(
        plan.burst[9],
        Command::TokenSend { from: public(11), to: public(21), amount: 100 }
    );
}

#[test]
fn scenarios_have_their_plans() {
    assert_eq!(run_scenario(PlannedScenario::Amm).name, "amm_swap_flow");
    assert_eq!(run_scenario(PlannedScenario::Private).name, "private_chained_flow");
    assert_eq!(run_scenario(PlannedScenario::Parallel).name, "parallel_fanout");
}

fn finished_run(ret: WalletReturn) -> StepRun {
    let waits = !matches!(ret, WalletReturn::RegisterAccount { .. });
    let mut run = StepRun::begin(3, 10);
    run.happened(StepEvent::Returned { ret }, 11);
    if waits {
        run.happened(StepEvent::ChainReported { height: 5 }, 12);
        run.happened(StepEvent::LastBlockRead { id: 5 }, 13);
        run.happened(StepEvent::WalletSynced { to: 5 }, 14);
        run.happened(StepEvent::TipRead { tip: 5 }, 15);
        run.happened(StepEvent::BlocksRead { fetched: vec![None, None] }, 16);
    }
    run
}

#[test]
fn recorded_steps_follow_the_plan() {
    let plan = private::run();
    let mut progress = Progress::start(&plan);
    let mut result = ScenarioResult::new(plan.name.clone());
    while let Some(step) = progress.next_step(&plan) {
        let ret = match step.command {
            Command::CreateAccount { .. } => {
                WalletReturn::RegisterAccount { account_id: AccountId { value: [1; 32] } }
            }
            _ => WalletReturn::Other,
        };
        finish_step(&mut progress, &plan, &mut result, &finished_run(ret), 17).unwrap();
    }
    let recorded: Vec<&str> = result.steps.iter().map(|s| s.label.as_str()).collect();
    assert_eq!(recorded, labels(&plan));
    assert_eq!(result.total_nanos, 9 * 7);
}

#[test]
fn unexpected_return_is_recorded_and_reported() {
    let plan = private::run();
    let mut progress = Progress::start(&plan);
    let mut result = ScenarioResult::new(plan.name.clone());
    let run = finished_run(WalletReturn::Other);
    let res = finish_step(&mut progress, &plan, &mut result, &run, 17);
    assert_eq!(res, Err(UnexpectedReturn));
    assert_eq!(result.steps.len(), 1);
    assert_eq!(result.steps[0].label, "create_acc_def");
    assert_eq!(progress.next_step(&plan).unwrap().label, "create_acc_def");
}

#[test]
fn token_names() {
    assert_eq!(TokenName::TokA.text(), "TokA");
    assert_eq!(TokenName::TokB.text(), "TokB");
    assert_eq!(TokenName::ParToken.text(), "ParToken");
    assert_eq!(TokenName::PrivToken.text(), "PrivToken");
}

#[test]
fn accounts_exist_when_they_are_needed() {
    for plan in [amm::run(), private::run(), parallel::run()] {
        let mut progress = Progress::start(&plan);
        let mut kinds = Vec::new();
        let mut n = 0u8;
        while let Some(step) = progress.next_step(&plan) {
            for mention in mentions(&step.command) {
                assert!(progress.account(mention).is_some());
                assert_eq!(kinds[mention.slot], mention.kind);
            }
            let ret = match step.command {
                Command::CreateAccount { kind } => {
                    kinds.push(kind);
                    n += 1;
                    WalletReturn::RegisterAccount { account_id: AccountId { value: [n; 32] } }
                }
                _ => WalletReturn::Other,
            };
            progress.step_done(&plan, &ret).unwrap();
        }
        assert_eq!(progress.account(public(0)), Some(AccountId { value: [1; 32] }));
        assert_eq!(progress.account(public(n as usize)), None);
        for command in &plan.burst {
            for mention in mentions(command) {
                assert!(progress.account(mention).is_some());
            }
        }
    }
}

#[test]
fn account_creation_has_to_return_an_account() {
    let plan = private::run();
    let mut progress = Progress::start(&plan);
    assert_eq!(progress.step_done(&plan, &WalletReturn::Other), Err(UnexpectedReturn));
    assert_eq!(progress.next_step(&plan).unwrap().label, "create_acc_def");
    assert_eq!(progress.account(public(0)), None);
    assert_eq!(
        UnexpectedReturn.message("Empty"),
        "expected RegisterAccount, got Empty"
    );
}

#[test]
fn plans_are_built_step_by_step() {
    let mut plan = Plan::new("own");
    let definition = plan.create("d", AccountKind::Public);
    let supply = plan.create("s", AccountKind::Private);
    assert_eq!(definition, public(0));
    assert_eq!(supply, hidden(1));
    let command = Command::TokenNew { definition, supply, token: TokenName::TokA, total_supply: 5 };
    plan.add_step("t".to_owned(), command);
    plan.add_burst(Command::TokenSend { from: supply, to: definition, amount: 5 });
    assert_eq!(labels(&plan), vec!["d", "s", "t"]);
    assert_eq!(plan.steps[2].command, command);
    assert_eq!(plan.burst.len(), 1);
}

#[test]
fn burst_is_one_step() {
    let mut run = BurstRun::begin(4, 2, 100);
    assert_eq!(run.next_action(), BurstAction::Submit { i: 0 });
    run.happened(BurstEvent::Submitted { i: 0 }, 200);
    assert_eq!(run.next_action(), BurstAction::Submit { i: 1 });
    run.happened(BurstEvent::Submitted { i: 1 }, 350);
    assert_eq!(run.next_action(), BurstAction::WaitForChain { target: 6 });
    run.happened(BurstEvent::ChainReported { height: 5 }, 400);
    assert_eq!(run.next_action(), BurstAction::WaitForChain { target: 6 });
    run.happened(BurstEvent::ChainReported { height: 6 }, 1000);
    assert_eq!(run.next_action(), BurstAction::ReadTip);
    run.happened(BurstEvent::TipRead { tip: 6 }, 1001);
    assert_eq!(run.next_action(), BurstAction::ReadBlocks { tip: 6 });
    let fetched = vec![None, Some(FetchedBlock { bytes: Some(9), txs: vec![] })];
    run.happened(BurstEvent::BlocksRead { fetched }, 1002);
    assert_eq!(run.next_action(), BurstAction::Finish);
    let step = burst_step(&run);
    assert_eq!(step.label, "burst_2_transfers");
    assert_eq!(step.submit_nanos, 250);
    assert_eq!(step.inclusion_nanos, Some(650));
    assert_eq!(step.wallet_sync_nanos, None);
    assert_eq!(step.total_nanos, 900);
    assert_eq!(step.submit_nanos + step.inclusion_nanos.unwrap(), step.total_nanos);
    assert_eq!(step.tx_hash, None);
    assert_eq!(step.blocks.len(), 1);
    assert_eq!(step.blocks[0].block_id, 6);
}

#[test]
fn empty_burst_only_waits() {
    let run = BurstRun::begin(0, 0, 0);
    assert_eq!(run.next_action(), BurstAction::WaitForChain { target: 2 });
}
