//! AMM swap flow: set up two tokens, create a pool, swap, add liquidity, remove
//! liquidity.
use crate::bench::plan::{AccountKind, Command, Plan, TokenName};
use vstd::prelude::*;

verus! {

/// The steps of the scenario. The accounts are, in order, the definition, the
/// supply and the user's holding of token A, the same of token B, and the
/// user's share of the pool.
pub open spec fn steps() -> Seq<crate::bench::plan::StepModel> {
    seq![
        crate::bench::plan::create_step("create_acc_def_a"@, AccountKind::Public),
        crate::bench::plan::create_step("create_acc_supply_a"@, AccountKind::Public),
        crate::bench::plan::create_step("create_acc_user_a"@, AccountKind::Public),
        crate::bench::plan::create_step("create_acc_def_b"@, AccountKind::Public),
        crate::bench::plan::create_step("create_acc_supply_b"@, AccountKind::Public),
        crate::bench::plan::create_step("create_acc_user_b"@, AccountKind::Public),
        crate::bench::plan::create_step("create_acc_user_lp"@, AccountKind::Public),
        crate::bench::plan::StepModel {
            label: "token_a_new"@,
            command: Command::TokenNew {
                definition: crate::bench::plan::public(0),
                supply: crate::bench::plan::public(1),
                token: TokenName::TokA,
                total_supply: 10_000,
            },
        },
        crate::bench::plan::send_step(
            "token_a_fund_user"@,
            crate::bench::plan::public(1),
            crate::bench::plan::public(2),
            1_000,
        ),
        crate::bench::plan::StepModel {
            label: "token_b_new"@,
            command: Command::TokenNew {
                definition: crate::bench::plan::public(3),
                supply: crate::bench::plan::public(4),
                token: TokenName::TokB,
                total_supply: 10_000,
            },
        },
        crate::bench::plan::send_step(
            "token_b_fund_user"@,
            crate::bench::plan::public(4),
            crate::bench::plan::public(5),
            1_000,
        ),
        crate::bench::plan::StepModel {
            label: "amm_new_pool"@,
            command: Command::AmmNew {
                user_holding_a: crate::bench::plan::public(2),
                user_holding_b: crate::bench::plan::public(5),
                user_holding_lp: crate::bench::plan::public(6),
                balance_a: 300,
                balance_b: 300,
            },
        },
        crate::bench::plan::StepModel {
            label: "amm_swap_exact_input"@,
            command: Command::AmmSwapExactInput {
                user_holding_a: crate::bench::plan::public(2),
                user_holding_b: crate::bench::plan::public(5),
                amount_in: 50,
                min_amount_out: 1,
                token_definition: crate::bench::plan::public(0),
            },
        },
        crate::bench::plan::StepModel {
            label: "amm_add_liquidity"@,
            command: Command::AmmAddLiquidity {
                user_holding_a: crate::bench::plan::public(2),
                user_holding_b: crate::bench::plan::public(5),
                user_holding_lp: crate::bench::plan::public(6),
                min_amount_lp: 1,
                max_amount_a: 100,
                max_amount_b: 100,
            },
        },
        crate::bench::plan::StepModel {
            label: "amm_remove_liquidity"@,
            command: Command::AmmRemoveLiquidity {
                user_holding_a: crate::bench::plan::public(2),
                user_holding_b: crate::bench::plan::public(5),
                user_holding_lp: crate::bench::plan::public(6),
                balance_lp: 50,
                min_amount_a: 1,
                min_amount_b: 1,
            },
        },
    ]
}

/// The plan of the scenario. All its accounts are public.
pub fn run() -> (plan: Plan)
    ensures
        plan.name@ == "amm_swap_flow"@,
        plan.steps_spec() == steps(),
        plan.burst@ == Seq::<Command>::empty(),
        plan.wf(),
        forall|slot: int|
            0 <= slot < crate::bench::plan::created(plan.commands()).len()
                ==> #[trigger] crate::bench::plan::created(plan.commands())[slot]
                == AccountKind::Public,
{
    let mut plan = Plan::new("amm_swap_flow");
    let def_a = plan.create("create_acc_def_a", AccountKind::Public);
    let supply_a = plan.create("create_acc_supply_a", AccountKind::Public);
    let user_a = plan.create("create_acc_user_a", AccountKind::Public);
    let def_b = plan.create("create_acc_def_b", AccountKind::Public);
    let supply_b = plan.create("create_acc_supply_b", AccountKind::Public);
    let user_b = plan.create("create_acc_user_b", AccountKind::Public);
    let user_lp = plan.create("create_acc_user_lp", AccountKind::Public);
    plan.add_step(
        "token_a_new".to_owned(),
        Command::TokenNew {
            definition: def_a,
            supply: supply_a,
            token: TokenName::TokA,
            total_supply: 10_000,
        },
    );
    plan.add_step(
        "token_a_fund_user".to_owned(),
        Command::TokenSend { from: supply_a, to: user_a, amount: 1_000 },
    );
    plan.add_step(
        "token_b_new".to_owned(),
        Command::TokenNew {
            definition: def_b,
            supply: supply_b,
            token: TokenName::TokB,
            total_supply: 10_000,
        },
    );
    plan.add_step(
        "token_b_fund_user".to_owned(),
        Command::TokenSend { from: supply_b, to: user_b, amount: 1_000 },
    );
    plan.add_step(
        "amm_new_pool".to_owned(),
        Command::AmmNew {
            user_holding_a: user_a,
            user_holding_b: user_b,
            user_holding_lp: user_lp,
            balance_a: 300,
            balance_b: 300,
        },
    );
    plan.add_step(
        "amm_swap_exact_input".to_owned(),
        Command::AmmSwapExactInput {
            user_holding_a: user_a,
            user_holding_b: user_b,
            amount_in: 50,
            min_amount_out: 1,
            token_definition: def_a,
        },
    );
    plan.add_step(
        "amm_add_liquidity".to_owned(),
        Command::AmmAddLiquidity {
            user_holding_a: user_a,
            user_holding_b: user_b,
            user_holding_lp: user_lp,
            min_amount_lp: 1,
            max_amount_a: 100,
            max_amount_b: 100,
        },
    );
    plan.add_step(
        "amm_remove_liquidity".to_owned(),
        Command::AmmRemoveLiquidity {
            user_holding_a: user_a,
            user_holding_b: user_b,
            user_holding_lp: user_lp,
            balance_lp: 50,
            min_amount_a: 1,
            min_amount_b: 1,
        },
    );
    assert(plan.steps_spec() =~= steps());
    plan
}

/// The trade of the scenario: two tokens of the same supply, the same amount of
/// each for the user, a pool that takes 300 of each, and then a swap of 50 of the
/// first token, an addition of at most 100 of each, and the removal of 50 shares.
/// Throughout, the user's three accounts are the same.
pub proof fn user_trades_with_one_pool()
    ensures
        steps().len() == 15,
        forall|i: int|
            0 <= i < 7 ==> (#[trigger] steps()[i]).command == (Command::CreateAccount {
                kind: AccountKind::Public,
            }),
        steps()[0].label == "create_acc_def_a"@,
        steps()[1].label == "create_acc_supply_a"@,
        steps()[2].label == "create_acc_user_a"@,
        steps()[3].label == "create_acc_def_b"@,
        steps()[4].label == "create_acc_supply_b"@,
        steps()[5].label == "create_acc_user_b"@,
        steps()[6].label == "create_acc_user_lp"@,
        steps()[7].label == "token_a_new"@,
        steps()[7].command matches Command::TokenNew { definition, supply, token, total_supply }
            && definition.slot == 0 && supply.slot == 1 && token == TokenName::TokA
            && total_supply == 10_000,
        steps()[8].label == "token_a_fund_user"@,
        steps()[8].command matches Command::TokenSend { from, to, amount } && from.slot == 1
            && to.slot == 2 && amount == 1_000,
        steps()[9].label == "token_b_new"@,
        steps()[9].command matches Command::TokenNew { definition, supply, token, total_supply }
            && definition.slot == 3 && supply.slot == 4 && token == TokenName::TokB
            && total_supply == 10_000,
        steps()[10].label == "token_b_fund_user"@,
        steps()[10].command matches Command::TokenSend { from, to, amount } && from.slot == 4
            && to.slot == 5 && amount == 1_000,
        steps()[11].label == "amm_new_pool"@,
        steps()[11].command matches Command::AmmNew {
            user_holding_a,
            user_holding_b,
            user_holding_lp,
            balance_a,
            balance_b,
        } && user_holding_a.slot == 2 && user_holding_b.slot == 5 && user_holding_lp.slot == 6
            && balance_a == 300 && balance_b == 300,
        steps()[12].label == "amm_swap_exact_input"@,
        steps()[12].command matches Command::AmmSwapExactInput {
            user_holding_a,
            user_holding_b,
            amount_in,
            min_amount_out,
            token_definition,
        } && user_holding_a.slot == 2 && user_holding_b.slot == 5 && amount_in == 50
            && min_amount_out == 1 && token_definition.slot == 0,
        steps()[13].label == "amm_add_liquidity"@,
        steps()[13].command matches Command::AmmAddLiquidity {
            user_holding_a,
            user_holding_b,
            user_holding_lp,
            min_amount_lp,
            max_amount_a,
            max_amount_b,
        } && user_holding_a.slot == 2 && user_holding_b.slot == 5 && user_holding_lp.slot == 6
            && min_amount_lp == 1 && max_amount_a == 100 && max_amount_b == 100,
        steps()[14].label == "amm_remove_liquidity"@,
        steps()[14].command matches Command::AmmRemoveLiquidity {
            user_holding_a,
            user_holding_b,
            user_holding_lp,
            balance_lp,
            min_amount_a,
            min_amount_b,
        } && user_holding_a.slot == 2 && user_holding_b.slot == 5 && user_holding_lp.slot == 6
            && balance_lp == 50 && min_amount_a == 1 && min_amount_b == 1,
{
}

} // verus!
