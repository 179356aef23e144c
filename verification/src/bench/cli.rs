//! What a run of the benchmark consists of.
use crate::text::chars_of;
use vstd::prelude::*;
use vstd::string::StringExecFns;

verus! {

/// The scenarios that can be asked for.
#[derive(Debug, Clone, Copy, PartialEq, Eq, Structural)]
pub enum ScenarioName {
    Token,
    Amm,
    Fanout,
    Private,
    Parallel,
    All,
}

/// The scenarios behind a name, in the order in which they run.
pub open spec fn scenarios_of(name: ScenarioName) -> Seq<ScenarioName> {
    match name {
        ScenarioName::All => seq![
            ScenarioName::Token,
            ScenarioName::Amm,
            ScenarioName::Fanout,
            ScenarioName::Private,
            ScenarioName::Parallel,
        ],
        other => seq![other],
    }
}

/// Lists the scenarios behind a name.
pub fn scenarios_to_run(name: ScenarioName) -> (list: Vec<ScenarioName>)
    ensures
        list@ == scenarios_of(name),
{
    let mut list: Vec<ScenarioName> = Vec::new();
    match name {
        ScenarioName::All => {
            list.push(ScenarioName::Token);
            list.push(ScenarioName::Amm);
            list.push(ScenarioName::Fanout);
            list.push(ScenarioName::Private);
            list.push(ScenarioName::Parallel);
        },
        other => {
            list.push(other);
        },
    }
    assert(list@ =~= scenarios_of(name));
    list
}

/// What is run is always a scenario proper, and all of them run when all are
/// asked for.
pub proof fn only_scenarios_run(name: ScenarioName, one: ScenarioName)
    ensures
        !scenarios_of(name).contains(ScenarioName::All),
        one != ScenarioName::All ==> scenarios_of(ScenarioName::All).contains(one),
        scenarios_of(name).no_duplicates(),
{
    let all = scenarios_of(ScenarioName::All);
    assert(all[0] == ScenarioName::Token);
    assert(all[1] == ScenarioName::Amm);
    assert(all[2] == ScenarioName::Fanout);
    assert(all[3] == ScenarioName::Private);
    assert(all[4] == ScenarioName::Parallel);
}

/// Whether proving is switched off, by the value of the environment variable
/// `RISC0_DEV_MODE`: it is set, and neither empty nor `0`.
pub open spec fn dev_mode_of(value: Option<&str>) -> bool {
    match value {
        Some(text) => text@.len() > 0 && text@ != seq!['0'],
        None => false,
    }
}

/// Tells whether proving is switched off.
pub fn risc0_dev_mode(value: Option<&str>) -> (dev: bool)
    ensures
        dev == dev_mode_of(value),
{
    match value {
        Some(text) => {
            let chars = chars_of(text);
            if chars.len() == 1 && chars[0] == '0' {
                assert(text@ =~= seq!['0']);
                false
            } else {
                assert(text@ == seq!['0'] ==> text@.len() == 1 && text@[0] == '0');
                chars.len() > 0
            }
        },
        None => false,
    }
}

/// The name of the report: `e2e_bench_dev.json` or `e2e_bench_prove.json`.
pub fn report_file_name(dev_mode: bool) -> (name: String)
    ensures
        name@ == "e2e_bench_"@ + (if dev_mode {
            "dev"@
        } else {
            "prove"@
        }) + ".json"@,
{
    let mut name = "e2e_bench_".to_owned();
    if dev_mode {
        name.append("dev");
    } else {
        name.append("prove");
    }
    name.append(".json");
    name
}

/// A scenario that is asked for by its name runs alone, and all five run in their
/// order when all are asked for.
pub proof fn scenarios_run_as_asked(name: ScenarioName)
    ensures
        name != ScenarioName::All ==> scenarios_of(name).len() == 1 && scenarios_of(name)[0]
            == name,
        scenarios_of(ScenarioName::All).len() == 5,
        scenarios_of(ScenarioName::All)[0] == ScenarioName::Token,
        scenarios_of(ScenarioName::All)[1] == ScenarioName::Amm,
        scenarios_of(ScenarioName::All)[2] == ScenarioName::Fanout,
        scenarios_of(ScenarioName::All)[3] == ScenarioName::Private,
        scenarios_of(ScenarioName::All)[4] == ScenarioName::Parallel,
{
}

/// Proving is switched off by every value of the variable but an empty one and a
/// single zero.
pub proof fn every_other_value_switches_proving_off(value: &str)
    ensures
        !dev_mode_of(None),
        dev_mode_of(Some(value)) <==> value@ != ""@ && value@ != "0"@,
{
    reveal_strlit("");
    reveal_strlit("0");
    assert("0"@ =~= seq!['0']);
    if value@.len() == 0 {
        assert(value@ =~= ""@);
    }
}

} // verus!
