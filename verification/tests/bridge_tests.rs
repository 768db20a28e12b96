use pbc_config::config::{resolve_endpoint, BridgeParameters, ChainConfig, Config, FlareChainConfig};
use pbc_config::decimal::{parse_decimal, Decimal};
use pbc_config::engine::{run, ExecMode, RemoteChain, World};
use pbc_config::errors::ErrorKind;
use pbc_config::ops::{OpData, Operation, OperationKind, OutcomeStatus};
use pbc_config::orchestrator::Orchestrator;
use pbc_config::state::{
    validate_parameter, BridgeField, ChainState, OnChainParams, ParamUpdate, QueryKind,
    TokenMapping,
};

fn chain_cfg(name: &str, endpoint: &str, token: &str, rate: &str, bridge: &str, decimals: u8) -> ChainConfig {
    ChainConfig {
        pbc_name: name.to_string(),
        pbc_endpoint: endpoint.to_string(),
        http_endpoint: format!("http://{}", name),
        token_address: token.to_string(),
        exchange_rate: rate.to_string(),
        bridge_address: bridge.to_string(),
        decimals,
    }
}

fn test_config() -> Config {
    Config {
        operator: "operator-one".to_string(),
        relayers: vec!["relayer-a".to_string(), "relayer-b".to_string()],
        chains: vec![
            (
                "solana".to_string(),
                chain_cfg("solana", "ws://solana:9944", "So1111", "2.5", "soBridge", 9),
            ),
            (
                "ethereum".to_string(),
                chain_cfg("ethereum", "ws://ethereum:9944", "0xToken", "1", "0xBridge", 18),
            ),
        ],
        flarechain: FlareChainConfig {
            endpoint: "ws://flare:9944".to_string(),
            http_endpoint: "http://flare".to_string(),
        },
        configuration: BridgeParameters {
            max_transfer_amount: "1000".to_string(),
            min_transfer_amount: "1".to_string(),
            bridge_fee_percent: "2.5".to_string(),
            confirmation_blocks: vec![("solana".to_string(), 12), ("ethereum".to_string(), 32)],
        },
    }
}

fn declared_params(confirmations: u32) -> OnChainParams {
    OnChainParams {
        max_amount: parse_decimal("1000").unwrap(),
        min_amount: parse_decimal("1").unwrap(),
        fee_percent: parse_decimal("2.5").unwrap(),
        confirmations,
    }
}

fn configured_state(confirmations: u32) -> ChainState {
    ChainState { mapping: None, relayers: vec!["relayer-a".to_string()], params: declared_params(confirmations) }
}

fn remote(name: &str, connectable: bool, state: ChainState) -> RemoteChain {
    RemoteChain {
        name: name.to_string(),
        connectable,
        accepts_tx: true,
        reject_reason: "bridge paused".to_string(),
        state,
    }
}

fn test_world() -> World {
    World {
        chains: vec![
            remote("solana", true, configured_state(12)),
            remote("ethereum", true, configured_state(32)),
        ],
    }
}

fn orchestrator() -> Orchestrator {
    Orchestrator::new(test_config()).unwrap()
}

fn expected_solana_mapping() -> TokenMapping {
    TokenMapping {
        token_address: "So1111".to_string(),
        exchange_rate: Decimal { units: 2, nanos: 500_000_000 },
        bridge_address: "soBridge".to_string(),
        decimals: 9,
    }
}

#[test]
fn configure_all_dispatches_every_chain_in_order() {
    let orch = orchestrator();
    let res = orch
        .configure_all(None, None, ExecMode::Concurrent { max_parallelism: 4 }, test_world())
        .unwrap();
    assert_eq!(res.report.outcomes.len(), 2);
    assert_eq!(res.report.outcomes[0].chain, "solana");
    assert_eq!(res.report.outcomes[1].chain, "ethereum");
    assert_eq!(res.report.succeeded, 2);
    assert_eq!(res.report.failed, 0);
    assert_eq!(res.report.skipped, 0);
    assert!(matches!(res.report.outcomes[0].status, OutcomeStatus::Success(None)));
    assert!(matches!(res.report.outcomes[1].status, OutcomeStatus::Success(None)));
    assert_eq!(res.world.chains[0].state.mapping, Some(expected_solana_mapping()));
}

#[test]
fn applying_twice_yields_same_state_as_once() {
    let orch = orchestrator();
    let chain = "solana".to_string();
    let once = orch.configure_one(&chain, None, test_world()).unwrap();
    let state_after_once = once.world.chains[0].state.clone();
    let twice = orch.configure_one(&chain, None, once.world).unwrap();
    assert!(matches!(twice.report.outcomes[0].status, OutcomeStatus::Success(None)));
    assert_eq!(twice.world.chains[0].state, state_after_once);
}

#[test]
fn verify_unmodified_state_returns_empty_diff() {
    let orch = orchestrator();
    let chain = "solana".to_string();
    let configured = orch.configure_one(&chain, None, test_world()).unwrap();
    let verified = orch.verify_chain(&chain, None, configured.world).unwrap();
    match &verified.report.outcomes[0].status {
        OutcomeStatus::Success(Some(OpData::Diff(diff))) => assert!(diff.is_empty()),
        other => panic!("expected a diff, got {:?}", other),
    }
}

#[test]
fn verify_after_update_reports_exactly_that_field() {
    let orch = orchestrator();
    let chain = "solana".to_string();
    let configured = orch.configure_one(&chain, None, test_world()).unwrap();
    let updated = orch
        .update_chain(&chain, &"fee".to_string(), &"7.5".to_string(), None, configured.world)
        .unwrap();
    assert!(matches!(updated.report.outcomes[0].status, OutcomeStatus::Success(None)));
    let verified = orch.verify_chain(&chain, None, updated.world).unwrap();
    match &verified.report.outcomes[0].status {
        OutcomeStatus::Success(Some(OpData::Diff(diff))) => {
            assert_eq!(diff.len(), 1);
            assert_eq!(diff[0].field, BridgeField::FeePercent);
        },
        other => panic!("expected a diff, got {:?}", other),
    }
}

#[test]
fn update_fee_out_of_range_fails_locally() {
    let orch = orchestrator();
    let chain = "solana".to_string();
    let res = orch
        .update_chain(&chain, &"fee".to_string(), &"150".to_string(), None, test_world())
        .unwrap();
    match &res.report.outcomes[0].status {
        OutcomeStatus::Failure(kind, message) => {
            assert_eq!(*kind, ErrorKind::InvalidValue);
            assert_eq!(message, "150");
        },
        other => panic!("expected a failure, got {:?}", other),
    }
    // No network call was attempted.
    assert_eq!(res.attempted, 0);
    assert_eq!(res.world.chains[0].state, configured_state(12));
}

#[test]
fn concurrent_failure_is_isolated_per_chain() {
    let orch = orchestrator();
    let world = World {
        chains: vec![
            remote("solana", true, configured_state(12)),
            remote("ethereum", false, configured_state(32)),
        ],
    };
    let res = orch
        .configure_all(None, None, ExecMode::Concurrent { max_parallelism: 4 }, world)
        .unwrap();
    assert_eq!(res.report.outcomes.len(), 2);
    assert_eq!(res.report.succeeded, 1);
    assert_eq!(res.report.failed, 1);
    assert_eq!(res.report.skipped, 0);
    assert!(matches!(res.report.outcomes[0].status, OutcomeStatus::Success(None)));
    match &res.report.outcomes[1].status {
        OutcomeStatus::Failure(kind, endpoint) => {
            assert_eq!(*kind, ErrorKind::ConnectionError);
            assert_eq!(endpoint, "ws://ethereum:9944");
        },
        other => panic!("expected a connection failure, got {:?}", other),
    }
    // Solana's outcome and state are exactly what a lone success gives.
    assert_eq!(res.world.chains[0].state.mapping, Some(expected_solana_mapping()));
    assert_eq!(res.world.chains[1].state, configured_state(32));
}

#[test]
fn sequential_mode_skips_after_first_failure() {
    let orch = orchestrator();
    let world = World {
        chains: vec![
            remote("solana", false, configured_state(12)),
            remote("ethereum", true, configured_state(32)),
        ],
    };
    let res = orch
        .configure_all(None, None, ExecMode::Sequential { continue_on_failure: false }, world)
        .unwrap();
    assert_eq!(res.report.failed, 1);
    assert_eq!(res.report.skipped, 1);
    assert_eq!(res.report.succeeded, 0);
    assert!(matches!(res.report.outcomes[0].status, OutcomeStatus::Failure(..)));
    assert!(matches!(res.report.outcomes[1].status, OutcomeStatus::Skipped));
    // The skipped chain was never touched.
    assert_eq!(res.world.chains[1].state.mapping, None);
}

#[test]
fn sequential_mode_can_continue_on_failure() {
    let orch = orchestrator();
    let world = World {
        chains: vec![
            remote("solana", false, configured_state(12)),
            remote("ethereum", true, configured_state(32)),
        ],
    };
    let res = orch
        .configure_all(None, None, ExecMode::Sequential { continue_on_failure: true }, world)
        .unwrap();
    assert_eq!(res.report.failed, 1);
    assert_eq!(res.report.succeeded, 1);
    assert_eq!(res.report.skipped, 0);
}

#[test]
fn query_all_populates_every_sub_result() {
    let orch = orchestrator();
    let chain = "solana".to_string();
    let configured = orch.configure_one(&chain, None, test_world()).unwrap();
    let res = orch.query_chain(&chain, QueryKind::All, None, configured.world).unwrap();
    match &res.report.outcomes[0].status {
        OutcomeStatus::Success(Some(OpData::Query(q))) => {
            assert_eq!(q.mapping, Some(Some(expected_solana_mapping())));
            assert_eq!(q.relayers, Some(vec!["relayer-a".to_string()]));
            assert_eq!(q.params, Some(declared_params(12)));
        },
        other => panic!("expected a query result, got {:?}", other),
    }
}

#[test]
fn single_queries_match_the_union() {
    let orch = orchestrator();
    let chain = "ethereum".to_string();
    let mapping_only = orch.query_chain(&chain, QueryKind::TokenMapping, None, test_world()).unwrap();
    match &mapping_only.report.outcomes[0].status {
        OutcomeStatus::Success(Some(OpData::Query(q))) => {
            assert_eq!(q.mapping, Some(None));
            assert_eq!(q.relayers, None);
            assert_eq!(q.params, None);
        },
        other => panic!("expected a query result, got {:?}", other),
    }
    let params_only = orch.query_chain(&chain, QueryKind::Parameters, None, test_world()).unwrap();
    match &params_only.report.outcomes[0].status {
        OutcomeStatus::Success(Some(OpData::Query(q))) => {
            assert_eq!(q.params, Some(declared_params(32)));
            assert_eq!(q.mapping, None);
        },
        other => panic!("expected a query result, got {:?}", other),
    }
}

#[test]
fn configure_all_with_unknown_chain_fails_fast() {
    let orch = orchestrator();
    let filter = vec!["foo".to_string(), "ethereum".to_string()];
    let res = orch.configure_all(
        Some(&filter),
        None,
        ExecMode::Concurrent { max_parallelism: 4 },
        test_world(),
    );
    assert_eq!(res.unwrap_err(), ErrorKind::ChainNotFound);
}

#[test]
fn configure_all_with_explicit_chains_configures_only_those() {
    let orch = orchestrator();
    let filter = vec!["ethereum".to_string()];
    let res = orch
        .configure_all(
            Some(&filter),
            None,
            ExecMode::Concurrent { max_parallelism: 4 },
            test_world(),
        )
        .unwrap();
    assert_eq!(res.report.outcomes.len(), 1);
    assert_eq!(res.report.outcomes[0].chain, "ethereum");
    assert_eq!(res.world.chains[0].state.mapping, None);
    assert!(res.world.chains[1].state.mapping.is_some());
}

#[test]
fn unknown_chain_commands_fail_with_chain_not_found() {
    let orch = orchestrator();
    let chain = "dogecoin".to_string();
    assert_eq!(orch.configure_one(&chain, None, test_world()).unwrap_err(), ErrorKind::ChainNotFound);
    assert_eq!(orch.verify_chain(&chain, None, test_world()).unwrap_err(), ErrorKind::ChainNotFound);
    assert_eq!(
        orch.query_chain(&chain, QueryKind::All, None, test_world()).unwrap_err(),
        ErrorKind::ChainNotFound
    );
    assert_eq!(
        orch.update_chain(&chain, &"fee".to_string(), &"1".to_string(), None, test_world())
            .unwrap_err(),
        ErrorKind::ChainNotFound
    );
}

#[test]
fn endpoint_override_is_preferred_when_non_empty() {
    let cfg = test_config();
    let over = "ws://alt:1234".to_string();
    assert_eq!(resolve_endpoint(&cfg, "solana", Some(&over)), Ok("ws://alt:1234".to_string()));
    let empty = String::new();
    assert_eq!(resolve_endpoint(&cfg, "solana", Some(&empty)), Ok("ws://solana:9944".to_string()));
    assert_eq!(resolve_endpoint(&cfg, "solana", None), Ok("ws://solana:9944".to_string()));
    assert_eq!(resolve_endpoint(&cfg, "nope", None), Err(ErrorKind::ChainNotFound));
}

#[test]
fn rejected_submission_surfaces_the_remote_cause() {
    let orch = orchestrator();
    let mut world = test_world();
    world.chains[0].accepts_tx = false;
    let res = orch.configure_one(&"solana".to_string(), None, world).unwrap();
    match &res.report.outcomes[0].status {
        OutcomeStatus::Failure(kind, message) => {
            assert_eq!(*kind, ErrorKind::RemoteRejected);
            assert_eq!(message, "bridge paused");
        },
        other => panic!("expected a rejection, got {:?}", other),
    }
    assert_eq!(res.world.chains[0].state, configured_state(12));
}

#[test]
fn validate_parameter_pins_names_and_ranges() {
    assert_eq!(
        validate_parameter("fee", "150"),
        Err(ErrorKind::InvalidValue)
    );
    assert_eq!(
        validate_parameter("fee", "100"),
        Ok(ParamUpdate::Fee(Decimal { units: 100, nanos: 0 }))
    );
    assert_eq!(
        validate_parameter("fee", "100.000000001"),
        Err(ErrorKind::InvalidValue)
    );
    assert_eq!(
        validate_parameter("max-amount", "2.5"),
        Ok(ParamUpdate::MaxAmount(Decimal { units: 2, nanos: 500_000_000 }))
    );
    assert_eq!(validate_parameter("max-amount", "0"), Err(ErrorKind::InvalidValue));
    assert_eq!(validate_parameter("min-amount", "0"), Err(ErrorKind::InvalidValue));
    assert_eq!(
        validate_parameter("min-amount", "1"),
        Ok(ParamUpdate::MinAmount(Decimal { units: 1, nanos: 0 }))
    );
    assert_eq!(validate_parameter("confirmations", "12"), Ok(ParamUpdate::Confirmations(12)));
    assert_eq!(validate_parameter("confirmations", "1.5"), Err(ErrorKind::InvalidValue));
    assert_eq!(validate_parameter("gas-limit", "5"), Err(ErrorKind::InvalidParameter));
}

#[test]
fn update_unknown_parameter_names_the_parameter() {
    let orch = orchestrator();
    let res = orch
        .update_chain(
            &"solana".to_string(),
            &"gas-limit".to_string(),
            &"5".to_string(),
            None,
            test_world(),
        )
        .unwrap();
    match &res.report.outcomes[0].status {
        OutcomeStatus::Failure(kind, message) => {
            assert_eq!(*kind, ErrorKind::InvalidParameter);
            assert_eq!(message, "gas-limit");
        },
        other => panic!("expected a failure, got {:?}", other),
    }
    assert_eq!(res.attempted, 0);
}

#[test]
fn update_confirmations_sets_the_field() {
    let orch = orchestrator();
    let res = orch
        .update_chain(
            &"ethereum".to_string(),
            &"confirmations".to_string(),
            &"7".to_string(),
            None,
            test_world(),
        )
        .unwrap();
    assert!(matches!(res.report.outcomes[0].status, OutcomeStatus::Success(None)));
    assert_eq!(res.world.chains[1].state.params.confirmations, 7);
    assert_eq!(res.world.chains[1].state.params.max_amount, parse_decimal("1000").unwrap());
}

#[test]
fn new_rejects_bad_configurations() {
    let mut dup = test_config();
    let again = dup.chains[0].clone();
    dup.chains.push(again);
    assert_eq!(Orchestrator::new(dup).unwrap_err(), ErrorKind::InvalidParameter);

    let mut bad_fee = test_config();
    bad_fee.configuration.bridge_fee_percent = "150".to_string();
    assert_eq!(Orchestrator::new(bad_fee).unwrap_err(), ErrorKind::InvalidValue);

    let mut inverted = test_config();
    inverted.configuration.max_transfer_amount = "0.5".to_string();
    assert_eq!(Orchestrator::new(inverted).unwrap_err(), ErrorKind::InvalidValue);

    let mut bad_rate = test_config();
    bad_rate.chains[1].1.exchange_rate = "many".to_string();
    assert_eq!(Orchestrator::new(bad_rate).unwrap_err(), ErrorKind::InvalidExchangeRate);
}

#[test]
fn verify_missing_mapping_reports_every_mapping_field() {
    let orch = orchestrator();
    let res = orch.verify_chain(&"solana".to_string(), None, test_world()).unwrap();
    match &res.report.outcomes[0].status {
        OutcomeStatus::Success(Some(OpData::Diff(diff))) => {
            assert_eq!(diff.len(), 4);
            assert_eq!(diff[0].field, BridgeField::TokenAddress);
            assert_eq!(diff[1].field, BridgeField::ExchangeRate);
            assert_eq!(diff[2].field, BridgeField::BridgeAddress);
            assert_eq!(diff[3].field, BridgeField::Decimals);
        },
        other => panic!("expected a diff, got {:?}", other),
    }
}

#[test]
fn unparseable_exchange_rate_fails_before_any_connection() {
    let op = Operation {
        chain: "solana".to_string(),
        endpoint: "ws://solana:9944".to_string(),
        kind: OperationKind::ApplyMapping(chain_cfg(
            "solana",
            "ws://solana:9944",
            "So1111",
            "one-and-a-half",
            "soBridge",
            9,
        )),
    };
    let res = run(&vec![op], test_world(), ExecMode::Sequential { continue_on_failure: false });
    match &res.report.outcomes[0].status {
        OutcomeStatus::Failure(kind, message) => {
            assert_eq!(*kind, ErrorKind::InvalidExchangeRate);
            assert_eq!(message, "one-and-a-half");
        },
        other => panic!("expected a failure, got {:?}", other),
    }
    assert_eq!(res.attempted, 0);
    assert_eq!(res.world.chains[0].state.mapping, None);
}

#[test]
fn empty_batch_yields_empty_report() {
    let res = run(&Vec::new(), test_world(), ExecMode::Concurrent { max_parallelism: 4 });
    assert_eq!(res.report.outcomes.len(), 0);
    assert_eq!(res.report.succeeded, 0);
    assert_eq!(res.report.failed, 0);
    assert_eq!(res.report.skipped, 0);
    assert_eq!(res.attempted, 0);
}

#[test]
fn error_kinds_describe_themselves() {
    assert_eq!(ErrorKind::ChainNotFound.describe(), "chain not found in configuration");
    assert_eq!(ErrorKind::InvalidValue.describe(), "value is not valid for this parameter");
}
