use lez_events::bench::bedrock::{
    bedrock_addr, chain_start_time, deployment_settings, invalid_addr_message, local_addr,
    plan_launch, LaunchEnv, LaunchError,
};
use lez_events::bench::cli::{report_file_name, risc0_dev_mode, scenarios_to_run, ScenarioName};
use lez_events::bench::disk::{dir_size_bytes, disk_sizes, DirEntry, DiskSizes};
use lez_events::bench::harness::{
    can_print_table, capture_blocks, finalize_step, print_table, produced_blocks,
    should_wait_for_chain, ScenarioResult, ScenarioTimes, StepAction, StepEvent, StepResult,
    StepRun, StepTimes, WalletReturn, STEP_MIN_BLOCKS,
};
use lez_events::bench::polling::{
    chain_target, measure_bedrock_finality, no_advance_message, node_not_up_message,
    not_caught_up_message, wait_for_chain_advance, wait_for_http, ChainWait, FinalityEvent, FinalityWait, HttpEvent, HttpWait,
};
use lez_events::bench::sizes::{
    can_add_up, checked_sum, mean_usize, measure_block, measure_blocks, size_figures, size_summary,
    BlockSize, FetchedBlock, SizeFigures, TxKind, TxSize,
};
use lez_events::token::AccountId;

fn tx(kind: TxKind, bytes: usize) -> TxSize {
    TxSize { kind, bytes: Some(bytes) }
}

fn block(block_bytes: usize, public: &[usize], ppe: &[usize], deploy: &[usize]) -> BlockSize {
    BlockSize {
        block_id: 1,
        block_bytes,
        public_tx_bytes: public.to_vec(),
        ppe_tx_bytes: ppe.to_vec(),
        deploy_tx_bytes: deploy.to_vec(),
    }
}

fn step(label: &str, total_nanos: u128, blocks: Vec<BlockSize>) -> StepResult {
    StepResult {
        label: label.to_owned(),
        submit_nanos: 1,
        inclusion_nanos: None,
        wallet_sync_nanos: None,
        total_nanos,
        tx_hash: None,
        blocks,
    }
}

fn account(n: u8) -> AccountId {
    AccountId { value: [n; 32] }
}

#[test]
fn transactions_are_split_by_kind() {
    let txs = vec![
        tx(TxKind::Public, 10),
        tx(TxKind::PrivacyPreserving, 2000),
        tx(TxKind::Public, 20),
        tx(TxKind::ProgramDeployment, 300),
        TxSize { kind: TxKind::Public, bytes: None },
    ];
    let size = measure_block(7, Some(2500), &txs);
    assert_eq!(size.block_id, 7);
    assert_eq!(size.block_bytes, 2500);
    assert_eq!(size.public_tx_bytes, vec![10, 20, 0]);
    assert_eq!(size.ppe_tx_bytes, vec![2000]);
    assert_eq!(size.deploy_tx_bytes, vec![300]);
    let counted =
        size.public_tx_bytes.len() + size.ppe_tx_bytes.len() + size.deploy_tx_bytes.len();
    assert_eq!(counted, txs.len());
}

#[test]
fn block_that_cannot_be_encoded_has_size_zero() {
    let size = measure_block(1, None, &vec![]);
    assert_eq!(size.block_bytes, 0);
    assert!(size.public_tx_bytes.is_empty());
}

#[test]
fn missing_blocks_are_left_out() {
    let fetched = vec![
        Some(FetchedBlock { bytes: Some(5), txs: vec![tx(TxKind::Public, 3)] }),
        None,
        Some(FetchedBlock { bytes: Some(6), txs: vec![] }),
    ];
    let sizes = capture_blocks(10, 13, &fetched);
    assert_eq!(sizes.len(), 2);
    assert_eq!(sizes[0].block_id, 11);
    assert_eq!(sizes[0].public_tx_bytes, vec![3]);
    assert_eq!(sizes[1].block_id, 13);
    assert_eq!(sizes[1].block_bytes, 6);
    assert!(measure_blocks(&vec![], &vec![]).is_empty());
}

#[test]
fn means_are_rounded_down() {
    assert_eq!(mean_usize(&[]), 0);
    assert_eq!(mean_usize(&[7]), 7);
    assert_eq!(mean_usize(&[1, 2, 5]), 2);
    assert_eq!(mean_usize(&[usize::MAX]), usize::MAX);
}

#[test]
fn figures_of_sizes() {
    let figures = size_figures(&[30, 10, 25]);
    assert_eq!(figures, SizeFigures { n: 3, total: 65, mean: 21, min: 10, max: 30 });
    assert!(figures.min <= figures.mean && figures.mean <= figures.max);
    let none = size_figures(&[]);
    assert_eq!(none, SizeFigures { n: 0, total: 0, mean: 0, min: 0, max: 0 });
}

#[test]
fn sums_that_do_not_fit_are_noticed() {
    assert_eq!(checked_sum(&[1, 2]), Some(3));
    assert_eq!(checked_sum(&[usize::MAX, 1]), None);
    let large = block(usize::MAX, &[], &[], &[]);
    assert!(can_add_up(&vec![&large]));
    assert!(!can_add_up(&vec![&large, &block(1, &[], &[], &[])]));
    assert!(!can_add_up(&vec![&block(1, &[], &[usize::MAX, 1], &[])]));
}

#[test]
fn summary_of_sizes() {
    let first = block(100, &[10, 20], &[], &[7]);
    let second = block(51, &[30], &[], &[]);
    assert_eq!(
        size_summary(&vec![&first, &second]),
        "\nBlock + tx size summary (2 blocks captured):\n  \
         block_bytes: total=151, mean=75, min=51, max=100\n  \
         public_tx_bytes      : n=3, total=60, mean=20, min=10, max=30\n  \
         ppe_tx_bytes         : (none)\n  \
         deploy_tx_bytes      : n=1, total=7, mean=7, min=7, max=7\n"
    );
    assert_eq!(size_summary(&vec![]), "");
}

fn file(bytes: u64) -> DirEntry {
    DirEntry::File { bytes }
}

fn directory(contents: Vec<DirEntry>) -> DirEntry {
    DirEntry::Directory { contents: Some(contents) }
}

#[test]
fn directory_sizes() {
    let entries = vec![
        file(10),
        DirEntry::Other,
        directory(vec![file(2), directory(vec![file(30), DirEntry::Other])]),
        DirEntry::Directory { contents: None },
    ];
    assert_eq!(dir_size_bytes(&Some(entries)), 42);
    assert_eq!(dir_size_bytes(&Some(vec![])), 0);
    assert_eq!(dir_size_bytes(&None), 0);
}

#[test]
fn each_directory_has_its_own_size() {
    assert_eq!(
        disk_sizes(&Some(vec![file(1)]), &Some(vec![file(2)]), &None),
        DiskSizes { sequencer_bytes: 1, indexer_bytes: 2, wallet_bytes: 0 }
    );
}

#[test]
fn directory_sizes_saturate() {
    assert_eq!(dir_size_bytes(&Some(vec![file(u64::MAX), file(1)])), u64::MAX);
    let nested = directory(vec![file(u64::MAX), file(1)]);
    assert_eq!(dir_size_bytes(&Some(vec![file(5), nested])), u64::MAX);
}

#[test]
fn grouping_entries_keeps_the_size() {
    let nested = dir_size_bytes(&Some(vec![file(1), directory(vec![file(2), file(3)])]));
    let flat = dir_size_bytes(&Some(vec![file(1), file(2), file(3)]));
    assert_eq!(nested, flat);
    assert_eq!(flat, 6);
}

#[test]
fn chain_targets_saturate() {
    assert_eq!(chain_target(5, 2), 7);
    assert_eq!(chain_target(u64::MAX - 1, 2), u64::MAX);
    assert_eq!(STEP_MIN_BLOCKS, 2);
}

#[test]
fn chain_is_waited_for() {
    assert_eq!(wait_for_chain_advance(5, 2, Some(7), false), ChainWait::Done);
    assert_eq!(wait_for_chain_advance(5, 2, Some(8), true), ChainWait::Done);
    assert_eq!(wait_for_chain_advance(5, 2, Some(6), false), ChainWait::PollAgain);
    assert_eq!(wait_for_chain_advance(5, 2, Some(6), true), ChainWait::TimedOut);
    assert_eq!(wait_for_chain_advance(5, 2, None, false), ChainWait::ReportAndPollAgain);
    assert_eq!(wait_for_chain_advance(5, 2, None, true), ChainWait::ReportAndTimedOut);
}

#[test]
fn stuck_chain_is_reported() {
    assert_eq!(
        no_advance_message(5, 2),
        "chain did not advance from 5 to at least 7 within 120s"
    );
    assert_eq!(not_caught_up_message(9), "indexer did not catch up to 9 within 60s");
    assert_eq!(
        node_not_up_message("127.0.0.1:1"),
        "Bedrock at 127.0.0.1:1 did not accept TCP within 60s"
    );
}

#[test]
fn finality_is_waited_for() {
    assert_eq!(measure_bedrock_finality(FinalityEvent::Block { id: 9 }, 9), FinalityWait::Done);
    assert_eq!(measure_bedrock_finality(FinalityEvent::Block { id: 10 }, 9), FinalityWait::Done);
    assert_eq!(measure_bedrock_finality(FinalityEvent::Block { id: 8 }, 9), FinalityWait::PollAgain);
    assert_eq!(measure_bedrock_finality(FinalityEvent::NoneYet, 0), FinalityWait::PollAgain);
    assert_eq!(
        measure_bedrock_finality(FinalityEvent::Failed, 0),
        FinalityWait::ReportAndPollAgain
    );
}

#[test]
fn finality_wait_ends_when_the_time_runs_out() {
    let events = [
        FinalityEvent::NoneYet,
        FinalityEvent::Failed,
        FinalityEvent::Block { id: 4 },
        FinalityEvent::TimedOut,
    ];
    let ends: Vec<bool> = events
        .iter()
        .map(|e| {
            matches!(
                measure_bedrock_finality(*e, 5),
                FinalityWait::Done | FinalityWait::ReportTimeoutAndFinish
            )
        })
        .collect();
    assert_eq!(ends, vec![false, false, false, true]);
    assert_eq!(
        measure_bedrock_finality(FinalityEvent::TimedOut, 5),
        FinalityWait::ReportTimeoutAndFinish
    );
}

#[test]
fn node_is_waited_for() {
    let clock = |deadline_passed| wait_for_http(HttpEvent::ClockRead { deadline_passed });
    let tried = |accepted| wait_for_http(HttpEvent::ConnectionTried { accepted });
    assert_eq!(clock(false), HttpWait::Connect);
    assert_eq!(clock(true), HttpWait::GiveUp);
    assert_eq!(tried(true), HttpWait::SettleAndFinish);
    assert_eq!(tried(false), HttpWait::SleepAndReadClock);
}

#[test]
fn all_means_every_scenario() {
    assert_eq!(
        scenarios_to_run(ScenarioName::All),
        vec![
            ScenarioName::Token,
            ScenarioName::Amm,
            ScenarioName::Fanout,
            ScenarioName::Private,
            ScenarioName::Parallel,
        ]
    );
    assert_eq!(scenarios_to_run(ScenarioName::Amm), vec![ScenarioName::Amm]);
}

#[test]
fn dev_mode_is_read_from_its_variable() {
    assert!(!risc0_dev_mode(None));
    assert!(!risc0_dev_mode(Some("")));
    assert!(!risc0_dev_mode(Some("0")));
    assert!(risc0_dev_mode(Some("1")));
    assert!(risc0_dev_mode(Some("00")));
    assert!(risc0_dev_mode(Some("false")));
}

#[test]
fn reports_are_named_after_the_mode() {
    assert_eq!(report_file_name(true), "e2e_bench_dev.json");
    assert_eq!(report_file_name(false), "e2e_bench_prove.json");
}

fn launch_env() -> LaunchEnv {
    LaunchEnv {
        bin: Ok("/bin/node".to_owned()),
        config_dir: Ok("/etc/node".to_owned()),
        port: None,
        bin_is_file: true,
        node_config_is_file: true,
        template_is_file: true,
    }
}

#[test]
fn node_is_launched_on_the_default_port() {
    let plan = plan_launch(launch_env()).unwrap();
    assert_eq!(plan.bin, "/bin/node");
    assert_eq!(plan.config_dir, "/etc/node");
    assert_eq!(plan.port, 18080);
}

#[test]
fn node_is_launched_on_the_wanted_port() {
    let port = |text: &str| {
        let env = LaunchEnv { port: Some(text.to_owned()), ..launch_env() };
        plan_launch(env).unwrap().port
    };
    assert_eq!(port("9000"), 9000);
    assert_eq!(port("65535"), 65535);
    assert_eq!(port("0"), 0);
    assert_eq!(port("65536"), 18080);
    assert_eq!(port("http"), 18080);
    assert_eq!(port(""), 18080);
}

#[test]
fn node_needs_its_binary() {
    let env = LaunchEnv {
        bin: Err("environment variable not found".to_owned()),
        config_dir: Err("never looked at".to_owned()),
        ..launch_env()
    };
    let e = plan_launch(env).unwrap_err();
    assert!(matches!(e, LaunchError::NoBin { .. }));
    assert_eq!(
        e.message(),
        "LEZ_BEDROCK_BIN is required (environment variable not found). Set it to the absolute \
         path of the logos-blockchain-node binary (e.g. `export \
         LEZ_BEDROCK_BIN=/path/to/logos-blockchain/target/release/logos-blockchain-node`)."
    );
    let e = plan_launch(LaunchEnv { bin_is_file: false, ..launch_env() }).unwrap_err();
    assert!(matches!(e, LaunchError::BinIsNoFile { .. }));
    assert_eq!(
        e.message(),
        "LEZ_BEDROCK_BIN does not point at a file: /bin/node. Build it via `cargo build -p \
         logos-blockchain-node --release` in logos-blockchain."
    );
}

#[test]
fn node_needs_its_configuration() {
    let env = LaunchEnv { config_dir: Err("unset".to_owned()), ..launch_env() };
    let e = plan_launch(env).unwrap_err();
    assert!(matches!(e, LaunchError::NoConfigDir { .. }));
    assert_eq!(
        e.message(),
        "LEZ_BEDROCK_CONFIG_DIR is required (unset). Set it to the directory containing \
         node-config.yaml and deployment-settings.yaml (see tools/e2e_bench/README.md for the \
         expected layout)."
    );
    for env in [
        LaunchEnv { node_config_is_file: false, ..launch_env() },
        LaunchEnv { template_is_file: false, ..launch_env() },
    ] {
        let e = plan_launch(env).unwrap_err();
        assert!(matches!(e, LaunchError::ConfigIncomplete { .. }));
        assert_eq!(
            e.message(),
            "LEZ_BEDROCK_CONFIG_DIR is missing node-config.yaml or deployment-settings.yaml at \
             /etc/node"
        );
    }
}

#[test]
fn node_address_has_a_default() {
    assert_eq!(bedrock_addr(None), "127.0.0.1:18080");
    assert_eq!(bedrock_addr(Some("10.0.0.1:80".to_owned())), "10.0.0.1:80");
    assert_eq!(local_addr(18080), bedrock_addr(None));
    assert_eq!(local_addr(0), "127.0.0.1:0");
    assert_eq!(invalid_addr_message("x"), "invalid LEZ_BEDROCK_ADDR `x`");
}

#[test]
fn start_time_is_filled_into_the_template() {
    let template = "a: PLACEHOLDER_CHAIN_START_TIME\nb: PLACEHOLDER_CHAIN_START_TIME";
    assert_eq!(deployment_settings(template, "now"), "a: now\nb: now");
    assert_eq!(deployment_settings("a: b", "now"), "a: b");
}

#[test]
fn start_time_has_microseconds_and_an_offset() {
    assert_eq!(
        chain_start_time(0, 0),
        Some("1970-01-01 00:00:00.000000 +00:00:00".to_owned())
    );
    assert_eq!(
        chain_start_time(1_700_000_000, 123_456_789),
        Some("2023-11-14 22:13:20.123456 +00:00:00".to_owned())
    );
    assert_eq!(chain_start_time(i64::MAX, 0), None);
}

#[test]
fn only_account_creation_does_not_wait() {
    assert!(!should_wait_for_chain(&WalletReturn::RegisterAccount { account_id: account(1) }));
    let transfer = WalletReturn::PrivacyPreservingTransfer { tx_hash: "ab".to_owned() };
    assert!(should_wait_for_chain(&transfer));
    assert!(should_wait_for_chain(&WalletReturn::Other));
}

#[test]
fn blocks_of_a_step() {
    assert_eq!(produced_blocks(5, 8), vec![6, 7, 8]);
    assert_eq!(produced_blocks(5, 6), vec![6]);
    assert!(produced_blocks(5, 5).is_empty());
    assert!(produced_blocks(5, 1).is_empty());
    assert_eq!(produced_blocks(u64::MAX - 1, u64::MAX), vec![u64::MAX]);
    assert_eq!(produced_blocks(u64::MAX, u64::MAX), vec![u64::MAX]);
}

fn returned(ret: WalletReturn) -> StepEvent {
    StepEvent::Returned { ret }
}

fn transfer() -> WalletReturn {
    WalletReturn::PrivacyPreservingTransfer { tx_hash: "abcd".to_owned() }
}

#[test]
fn step_of_an_account_creation() {
    let mut run = StepRun::begin(5, 100);
    let ret = WalletReturn::RegisterAccount { account_id: account(1) };
    assert_eq!(run.happened(returned(ret), 103), StepAction::Finish);
    let step = finalize_step("create".to_owned(), &run, 104);
    assert_eq!(step.label, "create");
    assert_eq!(step.submit_nanos, 3);
    assert_eq!(step.inclusion_nanos, None);
    assert_eq!(step.wallet_sync_nanos, None);
    assert_eq!(step.total_nanos, 4);
    assert_eq!(step.tx_hash, None);
    assert!(step.blocks.is_empty());
}

#[test]
fn step_of_a_transfer() {
    let mut run = StepRun::begin(5, 100);
    assert_eq!(run.happened(returned(transfer()), 103), StepAction::WaitForChain { target: 7 });
    let low = StepEvent::ChainReported { height: 6 };
    assert_eq!(run.happened(low, 104), StepAction::WaitForChain { target: 7 });
    let high = StepEvent::ChainReported { height: 7 };
    assert_eq!(run.happened(high, 113), StepAction::ReadLastBlock);
    let last = StepEvent::LastBlockRead { id: 7 };
    assert_eq!(run.happened(last, 114), StepAction::SyncWallet { to: 7 });
    let synced = StepEvent::WalletSynced { to: 7 };
    assert_eq!(run.happened(synced, 133), StepAction::ReadTip);
    let tip = StepEvent::TipRead { tip: 8 };
    assert_eq!(run.happened(tip, 134), StepAction::ReadBlocks { tip: 8 });
    let fetched = vec![
        Some(FetchedBlock { bytes: Some(50), txs: vec![tx(TxKind::PrivacyPreserving, 40)] }),
        None,
        Some(FetchedBlock { bytes: Some(10), txs: vec![] }),
    ];
    assert_eq!(run.happened(StepEvent::BlocksRead { fetched }, 139), StepAction::Finish);
    let step = finalize_step("send".to_owned(), &run, 140);
    assert_eq!(step.submit_nanos, 3);
    assert_eq!(step.inclusion_nanos, Some(10));
    assert_eq!(step.wallet_sync_nanos, Some(20));
    assert_eq!(step.total_nanos, 40);
    assert!(3 + 10 + 20 <= step.total_nanos);
    assert_eq!(step.tx_hash, Some("abcd".to_owned()));
    assert_eq!(step.blocks.len(), 2);
    assert_eq!(step.blocks[0].block_id, 6);
    assert_eq!(step.blocks[0].ppe_tx_bytes, vec![40]);
    assert_eq!(step.blocks[1].block_id, 8);
}

#[test]
fn step_without_a_hash() {
    let mut run = StepRun::begin(0, 0);
    run.happened(returned(WalletReturn::Other), 0);
    run.happened(StepEvent::ChainReported { height: 2 }, 0);
    run.happened(StepEvent::LastBlockRead { id: 2 }, 0);
    run.happened(StepEvent::WalletSynced { to: 2 }, 0);
    run.happened(StepEvent::TipRead { tip: 0 }, 0);
    let action = run.happened(StepEvent::BlocksRead { fetched: vec![] }, 0);
    assert_eq!(action, StepAction::Finish);
    let step = finalize_step("send".to_owned(), &run, 0);
    assert_eq!(step.tx_hash, None);
    assert_eq!(step.inclusion_nanos, Some(0));
    assert!(step.blocks.is_empty());
}

#[test]
fn scenario_totals_are_those_of_the_steps() {
    let mut result = ScenarioResult::new("s".to_owned());
    assert_eq!(result.name, "s");
    assert_eq!(result.total_nanos, 0);
    assert!(result.disk_before.is_none() && result.disk_after.is_none());
    assert!(result.bedrock_finality_nanos.is_none());
    result.setup_nanos = 1000;
    result.push(step("a", 3, vec![]));
    result.push(step("b", 4, vec![]));
    assert_eq!(result.total_nanos, 7);
    assert_eq!(result.setup_nanos, 1000);
    assert_eq!(result.steps[1].label, "b");
}

fn times(submit: &str, inclusion: Option<&str>, total: &str) -> StepTimes {
    StepTimes {
        submit: submit.to_owned(),
        inclusion: inclusion.map(str::to_owned),
        wallet_sync: None,
        total: total.to_owned(),
    }
}

fn all_times(steps: Vec<StepTimes>) -> ScenarioTimes {
    ScenarioTimes {
        setup_ms: "1.0".to_owned(),
        setup_s: "0.00".to_owned(),
        total_ms: "2.0".to_owned(),
        total_s: "0.01".to_owned(),
        steps,
    }
}

#[test]
fn table_of_a_scenario() {
    let mut result = ScenarioResult::new("demo".to_owned());
    result.push(step("create", 1, vec![]));
    let mut second = step("x", 1, vec![block(9, &[4], &[], &[])]);
    second.inclusion_nanos = Some(1_500_000_000);
    result.push(second);
    let times =
        all_times(vec![times("0.100", None, "0.200"), times("0.300", Some("1.500"), "1.800")]);
    assert!(can_print_table(&result, &times));
    let text = print_table(&result, &times);
    let lines: Vec<&str> = text.lines().collect();
    assert_eq!(lines[0], "");
    assert_eq!(lines[1], "Scenario: demo (setup 1.0 ms (0.00s), total 2.0 ms (0.01s))");
    assert_eq!(lines[2], "step      submit_s   inclusion_s      sync_s           total_s");
    assert_eq!(lines[3], "-".repeat(68));
    assert_eq!(lines[4], "create       0.100             -           -             0.200");
    assert_eq!(lines[5], "x            0.300         1.500           -             1.800");
    assert_eq!(lines[2].len(), 62);
    assert_eq!(lines[4].len(), 62);
    assert_eq!(lines[5].len(), 62);
    assert_eq!(lines[7], "Block + tx size summary (1 blocks captured):");
    assert_eq!(lines[8], "  block_bytes: total=9, mean=9, min=9, max=9");
    assert_eq!(lines.len(), 12);
}

#[test]
fn table_of_an_empty_scenario() {
    let result = ScenarioResult::new("none".to_owned());
    let text = print_table(&result, &all_times(vec![]));
    assert_eq!(text.lines().count(), 4);
    assert_eq!(text.lines().nth(3).unwrap().len(), 66);
}

#[test]
fn table_needs_a_text_for_each_measured_time() {
    let mut result = ScenarioResult::new("s".to_owned());
    result.push(step("a", 1, vec![]));
    assert!(can_print_table(&result, &all_times(vec![times("1", None, "1")])));
    assert!(!can_print_table(&result, &all_times(vec![])));
    assert!(!can_print_table(&result, &all_times(vec![times("1", Some("2"), "1")])));
    result.steps[0].wallet_sync_nanos = Some(1);
    assert!(!can_print_table(&result, &all_times(vec![times("1", None, "1")])));
}

#[test]
fn table_needs_sizes_that_add_up() {
    let mut result = ScenarioResult::new("big".to_owned());
    result.push(step("a", 1, vec![block(usize::MAX, &[], &[], &[]), block(1, &[], &[], &[])]));
    assert!(!can_print_table(&result, &all_times(vec![times("1", None, "1")])));
}

#[test]
fn chain_wait_passes_failed_looks_over() {
    let looks = [(None, false), (Some(5), false), (Some(9), false), (Some(20), true)];
    let actions: Vec<ChainWait> = looks
        .iter()
        .map(|(reply, late)| wait_for_chain_advance(7, 2, *reply, *late))
        .collect();
    let first = actions.iter().position(|a| {
        !matches!(a, ChainWait::PollAgain | ChainWait::ReportAndPollAgain)
    });
    assert_eq!(first, Some(2));
    assert_eq!(actions[2], ChainWait::Done);
}

#[test]
fn node_wait_ends_with_the_first_accepted_connection() {
    let events = [
        HttpEvent::ClockRead { deadline_passed: false },
        HttpEvent::ConnectionTried { accepted: false },
        HttpEvent::ClockRead { deadline_passed: false },
        HttpEvent::ConnectionTried { accepted: true },
        HttpEvent::ClockRead { deadline_passed: true },
    ];
    let first = events.iter().position(|e| {
        matches!(wait_for_http(*e), HttpWait::SettleAndFinish | HttpWait::GiveUp)
    });
    assert_eq!(first, Some(3));
}
