//! Private chained flow: shielded, deshielded, and private-to-private transfers.
use crate::bench::plan::{AccountKind, Command, Plan, TokenName};
use vstd::prelude::*;

verus! {

/// The steps of the scenario. The accounts are, in order, the definition, the
/// supply and a recipient, which are public, and two private ones.
pub open spec fn steps() -> Seq<crate::bench::plan::StepModel> {
    seq![
        crate::bench::plan::create_step("create_acc_def"@, AccountKind::Public),
        crate::bench::plan::create_step("create_acc_supply"@, AccountKind::Public),
        crate::bench::plan::create_step("create_acc_pub_recipient"@, AccountKind::Public),
        crate::bench::plan::create_step("create_acc_priv_a"@, AccountKind::Private),
        crate::bench::plan::create_step("create_acc_priv_b"@, AccountKind::Private),
        crate::bench::plan::StepModel {
            label: "token_new_fungible"@,
            command: Command::TokenNew {
                definition: crate::bench::plan::public(0),
                supply: crate::bench::plan::public(1),
                token: TokenName::PrivToken,
                total_supply: 1_000_000,
            },
        },
        crate::bench::plan::send_step(
            "shielded_transfer"@,
            crate::bench::plan::public(1),
            crate::bench::plan::private(3),
            1_000,
        ),
        crate::bench::plan::send_step(
            "deshielded_transfer"@,
            crate::bench::plan::private(3),
            crate::bench::plan::public(2),
            100,
        ),
        crate::bench::plan::send_step(
            "private_to_private"@,
            crate::bench::plan::private(3),
            crate::bench::plan::private(4),
            200,
        ),
    ]
}

/// The plan of the scenario.
pub fn run() -> (plan: Plan)
    ensures
        plan.name@ == "private_chained_flow"@,
        plan.steps_spec() == steps(),
        plan.burst@ == Seq::<Command>::empty(),
        plan.wf(),
{
    let mut plan = Plan::new("private_chained_flow");
    let definition = plan.create("create_acc_def", AccountKind::Public);
    let supply = plan.create("create_acc_supply", AccountKind::Public);
    let public_recipient = plan.create("create_acc_pub_recipient", AccountKind::Public);
    let private_a = plan.create("create_acc_priv_a", AccountKind::Private);
    let private_b = plan.create("create_acc_priv_b", AccountKind::Private);
    plan.add_step(
        "token_new_fungible".to_owned(),
        Command::TokenNew {
            definition,
            supply,
            token: TokenName::PrivToken,
            total_supply: 1_000_000,
        },
    );
    plan.add_step(
        "shielded_transfer".to_owned(),
        Command::TokenSend { from: supply, to: private_a, amount: 1_000 },
    );
    plan.add_step(
        "deshielded_transfer".to_owned(),
        Command::TokenSend { from: private_a, to: public_recipient, amount: 100 },
    );
    plan.add_step(
        "private_to_private".to_owned(),
        Command::TokenSend { from: private_a, to: private_b, amount: 200 },
    );
    assert(plan.steps_spec() =~= steps());
    plan
}

/// The chain of transfers: from the public supply into the first private account,
/// then from that account back to a public one, and then from it to the second
/// private one. Together it sends less than it received.
pub proof fn transfers_go_through_the_private_account()
    ensures
        steps().len() == 9,
        steps()[0].label == "create_acc_def"@,
        steps()[1].label == "create_acc_supply"@,
        steps()[2].label == "create_acc_pub_recipient"@,
        steps()[3].label == "create_acc_priv_a"@,
        steps()[4].label == "create_acc_priv_b"@,
        forall|i: int|
            0 <= i < 5 ==> (#[trigger] steps()[i]).command == (Command::CreateAccount {
                kind: if i < 3 {
                    AccountKind::Public
                } else {
                    AccountKind::Private
                },
            }),
        steps()[5].label == "token_new_fungible"@,
        steps()[5].command matches Command::TokenNew { definition, supply, token, total_supply }
            && definition.slot == 0 && supply.slot == 1 && token == TokenName::PrivToken
            && total_supply == 1_000_000,
        steps()[6].label == "shielded_transfer"@,
        steps()[6].command matches Command::TokenSend { from, to, amount } && from.slot == 1
            && from.kind == AccountKind::Public && to.slot == 3 && to.kind == AccountKind::Private
            && amount == 1_000,
        steps()[7].label == "deshielded_transfer"@,
        steps()[7].command matches Command::TokenSend { from, to, amount } && from.slot == 3
            && from.kind == AccountKind::Private && to.slot == 2 && to.kind == AccountKind::Public
            && amount == 100,
        steps()[8].label == "private_to_private"@,
        steps()[8].command matches Command::TokenSend { from, to, amount } && from.slot == 3
            && from.kind == AccountKind::Private && to.slot == 4 && to.kind == AccountKind::Private
            && amount == 200,
{
}

} // verus!
