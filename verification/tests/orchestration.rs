use price_scraper::client::price_report_body;
use price_scraper::client::prices_url;
use price_scraper::credentials::auth_header_value;
use price_scraper::credentials::Credentials;
use price_scraper::credentials::Token;
use price_scraper::orchestrator::Orchestrator;
use price_scraper::orchestrator::RunAction;
use price_scraper::orchestrator::RunError;
use price_scraper::orchestrator::RunEvent;
use price_scraper::orchestrator::RunPhase;
use price_scraper::pipeline::PipelineAction;
use price_scraper::pipeline::PipelineError;
use price_scraper::pipeline::PipelineEvent;
use price_scraper::pipeline::PipelineOutcome;
use price_scraper::pipeline::PipelineState;
use price_scraper::pipeline::Provider;
use price_scraper::pipeline::ProviderRef;
use price_scraper::price::Price;

fn token() -> Token {
    Token { access_token: "tok".to_string(), token_type: "Bearer".to_string() }
}

fn authed_orchestrator(ids: &[u64], now: u64) -> (Orchestrator, Vec<u64>) {
    let creds = Credentials::new("id".to_string(), "secret".to_string());
    let mut orch = Orchestrator::new(creds);
    let a = orch.start_run(now);
    assert!(matches!(a, RunAction::Authenticate { .. }));
    let a = orch.step(RunEvent::AuthSucceeded { token: token() }, now);
    assert!(matches!(a, RunAction::FetchCatalog { .. }));
    let refs: Vec<ProviderRef> = ids.iter().map(|&id| ProviderRef { id }).collect();
    let a = orch.step(RunEvent::CatalogFetched { refs }, now);
    let dispatched = match a {
        RunAction::Dispatch { provider_ids } => provider_ids,
        other => panic!("expected a dispatch, got {:?}", action_name(&other)),
    };
    (orch, dispatched)
}

fn action_name(a: &RunAction) -> &'static str {
    match a {
        RunAction::Authenticate { .. } => "Authenticate",
        RunAction::FetchCatalog { .. } => "FetchCatalog",
        RunAction::Dispatch { .. } => "Dispatch",
        RunAction::ReportRun { .. } => "ReportRun",
        RunAction::Wait => "Wait",
        RunAction::RunFinished { .. } => "RunFinished",
    }
}

#[test]
fn authorization_header_is_exactly_type_space_token() {
    let t = Token { access_token: "abc".to_string(), token_type: "Bearer".to_string() };
    assert_eq!(auth_header_value(&t), "Bearer abc");
}

#[test]
fn header_sent_to_catalog_matches_token_exactly() {
    let creds = Credentials::new("id".to_string(), "secret".to_string());
    let mut orch = Orchestrator::new(creds);
    orch.start_run(1);
    let a = orch.step(RunEvent::AuthSucceeded { token: token() }, 2);
    match a {
        RunAction::FetchCatalog { auth_header } => assert_eq!(auth_header, "Bearer tok"),
        _ => panic!("expected the catalog fetch"),
    }
}

#[test]
fn concurrency_cap_never_exceeded() {
    let ids: Vec<u64> = (1..=15).collect();
    let (mut orch, dispatched) = authed_orchestrator(&ids, 100);
    assert_eq!(dispatched, (1..=10).collect::<Vec<u64>>());
    let mut active = dispatched.len();
    assert!(active <= 10);
    let mut completed = 0u64;
    let mut next = dispatched.clone();
    let record = loop {
        let id = next.remove(0);
        let outcome = PipelineOutcome::NoPrice { provider_id: id };
        let a = orch.step(RunEvent::PipelineCompleted { outcome }, 200);
        active -= 1;
        completed += 1;
        assert!(orch.in_flight <= 10);
        match a {
            RunAction::Dispatch { provider_ids } => {
                active += provider_ids.len();
                assert!(active <= 10);
                next.extend(provider_ids);
            }
            RunAction::Wait => {}
            RunAction::ReportRun { record } => break record,
            other => panic!("unexpected action {}", action_name(&other)),
        }
    };
    assert_eq!(completed, 15);
    assert_eq!(active, 0);
    assert!(record.start_time <= record.end_time);
}

#[test]
fn queued_pipelines_dispatch_in_catalog_order() {
    let ids: Vec<u64> = (1..=12).collect();
    let (mut orch, dispatched) = authed_orchestrator(&ids, 100);
    assert_eq!(dispatched, (1..=10).collect::<Vec<u64>>());
    let a = orch.step(
        RunEvent::PipelineCompleted { outcome: PipelineOutcome::NoPrice { provider_id: 1 } },
        101,
    );
    match a {
        RunAction::Dispatch { provider_ids } => assert_eq!(provider_ids, vec![11]),
        _ => panic!("expected pipeline 11 to be dispatched"),
    }
    let a = orch.step(
        RunEvent::PipelineCompleted { outcome: PipelineOutcome::NoPrice { provider_id: 2 } },
        102,
    );
    match a {
        RunAction::Dispatch { provider_ids } => assert_eq!(provider_ids, vec![12]),
        _ => panic!("expected pipeline 12 to be dispatched"),
    }
}

#[test]
fn one_failing_pipeline_does_not_stop_the_others() {
    let ids: Vec<u64> = (1..=5).collect();
    let (mut orch, dispatched) = authed_orchestrator(&ids, 100);
    assert_eq!(dispatched, vec![1, 2, 3, 4, 5]);

    // Run all five pipelines; provider 3's page fetch always fails.
    let mut reported: Vec<(u64, Price)> = Vec::new();
    let mut outcomes: Vec<PipelineOutcome> = Vec::new();
    for id in dispatched {
        let (st, _a) = PipelineState::start(ProviderRef { id });
        let provider = Provider {
            id,
            name: format!("p{}", id),
            url: format!("http://x/{}", id),
            html_element: ".price".to_string(),
        };
        let (st, _a) = st.step(PipelineEvent::Resolved { provider });
        let (st, a) = if id == 3 {
            st.step(PipelineEvent::FetchFailed)
        } else {
            let body = format!("<span class=\"price\">{},00</span>", 10 * id);
            st.step(PipelineEvent::Fetched { body })
        };
        let st = match a {
            PipelineAction::ReportPrice { provider_id, price } => {
                reported.push((provider_id, price));
                let (st, _a) = st.step(PipelineEvent::PriceReported { accepted: true });
                st
            }
            PipelineAction::Finished { .. } => st,
            _ => panic!("unexpected pipeline action"),
        };
        match st {
            PipelineState::Done { outcome } => outcomes.push(outcome),
            _ => panic!("pipeline did not finish"),
        }
    }
    // Providers 1, 2, 4, 5 all reported prices; 3 failed in isolation.
    assert_eq!(reported.len(), 4);
    let reported_ids: Vec<u64> = reported.iter().map(|(id, _)| *id).collect();
    assert_eq!(reported_ids, vec![1, 2, 4, 5]);
    assert!(matches!(
        outcomes[2],
        PipelineOutcome::Failed { provider_id: 3, error: PipelineError::Fetch }
    ));

    // The orchestrator waits for all five, then surfaces the failure and
    // skips the run report.
    let mut last = None;
    for outcome in outcomes {
        last = Some(orch.step(RunEvent::PipelineCompleted { outcome }, 200));
    }
    match last.unwrap() {
        RunAction::RunFinished { result } => {
            assert_eq!(
                result,
                Err(RunError::Pipeline { error: PipelineError::Fetch })
            );
        }
        other => panic!("expected the run to finish, got {}", action_name(&other)),
    }
    assert_eq!(orch.completed, 5);
    assert_eq!(orch.phase, RunPhase::Idle);
}

#[test]
fn auth_failure_abandons_the_run_without_reporting() {
    let creds = Credentials::new("id".to_string(), "secret".to_string());
    let mut orch = Orchestrator::new(creds);
    orch.start_run(1);
    let a = orch.step(RunEvent::AuthFailed, 2);
    match a {
        RunAction::RunFinished { result } => assert_eq!(result, Err(RunError::Auth)),
        _ => panic!("expected the run to finish"),
    }
    assert_eq!(orch.phase, RunPhase::Idle);
}

#[test]
fn catalog_failure_abandons_the_run() {
    let creds = Credentials::new("id".to_string(), "secret".to_string());
    let mut orch = Orchestrator::new(creds);
    orch.start_run(1);
    orch.step(RunEvent::AuthSucceeded { token: token() }, 2);
    let a = orch.step(RunEvent::CatalogFailed, 3);
    match a {
        RunAction::RunFinished { result } => assert_eq!(result, Err(RunError::Catalog)),
        _ => panic!("expected the run to finish"),
    }
}

#[test]
fn run_report_failure_surfaces() {
    let creds = Credentials::new("id".to_string(), "secret".to_string());
    let mut orch = Orchestrator::new(creds);
    orch.start_run(1);
    orch.step(RunEvent::AuthSucceeded { token: token() }, 2);
    let a = orch.step(RunEvent::CatalogFetched { refs: Vec::new() }, 3);
    assert!(matches!(a, RunAction::ReportRun { .. }));
    let a = orch.step(RunEvent::RunReportFailed, 4);
    match a {
        RunAction::RunFinished { result } => assert_eq!(result, Err(RunError::RunReport)),
        _ => panic!("expected the run to finish"),
    }
}

#[test]
fn run_end_never_precedes_run_start() {
    let creds = Credentials::new("id".to_string(), "secret".to_string());
    let mut orch = Orchestrator::new(creds);
    orch.start_run(1000);
    orch.step(RunEvent::AuthSucceeded { token: token() }, 1001);
    // The clock steps back: the record still closes no earlier than it began.
    let a = orch.step(RunEvent::CatalogFetched { refs: Vec::new() }, 500);
    match a {
        RunAction::ReportRun { record } => {
            assert_eq!(record.start_time, 1000);
            assert_eq!(record.end_time, 1000);
            assert!(record.start_time <= record.end_time);
        }
        _ => panic!("expected the run report"),
    }
}

#[test]
fn end_to_end_single_provider() {
    let (mut orch, dispatched) = authed_orchestrator(&[1], 1000);
    assert_eq!(dispatched, vec![1]);

    let (st, a) = PipelineState::start(ProviderRef { id: 1 });
    assert!(matches!(a, PipelineAction::Resolve { provider_id: 1 }));
    let provider = Provider {
        id: 1,
        name: "Acme".to_string(),
        url: "http://x/p".to_string(),
        html_element: ".price".to_string(),
    };
    let (st, a) = st.step(PipelineEvent::Resolved { provider });
    match a {
        PipelineAction::FetchPage { url } => assert_eq!(url, "http://x/p"),
        _ => panic!("expected the page fetch"),
    }
    let body = "<span class=\"price\">kr. 199,-</span>".to_string();
    let (st, a) = st.step(PipelineEvent::Fetched { body });
    let price = match a {
        PipelineAction::ReportPrice { provider_id, price } => {
            assert_eq!(provider_id, 1);
            price
        }
        _ => panic!("expected a price report"),
    };
    assert_eq!(price, Price { negative: false, mantissa: 199, scale: 0 });
    assert_eq!(prices_url("http://api", 1), "http://api/providers/1/prices");
    assert_eq!(price_report_body(&price), "{\"price\":199}");
    let (st, _a) = st.step(PipelineEvent::PriceReported { accepted: true });
    let outcome = match st {
        PipelineState::Done { outcome } => outcome,
        _ => panic!("pipeline did not finish"),
    };
    assert!(matches!(outcome, PipelineOutcome::Reported { provider_id: 1, .. }));

    let a = orch.step(RunEvent::PipelineCompleted { outcome }, 2000);
    let record = match a {
        RunAction::ReportRun { record } => record,
        other => panic!("expected the run report, got {}", action_name(&other)),
    };
    assert_eq!(record.start_time, 1000);
    assert_eq!(record.end_time, 2000);
    let a = orch.step(RunEvent::RunReported, 2001);
    assert!(matches!(a, RunAction::RunFinished { result: Ok(()) }));
}

#[test]
fn no_price_is_a_successful_outcome() {
    let (st, _a) = PipelineState::start(ProviderRef { id: 7 });
    let provider = Provider {
        id: 7,
        name: "Empty".to_string(),
        url: "http://x/e".to_string(),
        html_element: ".price".to_string(),
    };
    let (st, _a) = st.step(PipelineEvent::Resolved { provider });
    let body = "<p class=\"price\">abc</p><p class=\"price\">0,00</p>".to_string();
    let (st, a) = st.step(PipelineEvent::Fetched { body });
    match a {
        PipelineAction::Finished { outcome } => {
            assert!(matches!(outcome, PipelineOutcome::NoPrice { provider_id: 7 }));
        }
        _ => panic!("expected a finished pipeline"),
    }
    assert!(matches!(st, PipelineState::Done { .. }));
}

#[test]
fn selector_and_resolve_failures_are_scoped() {
    let (st, _a) = PipelineState::start(ProviderRef { id: 9 });
    let (_st, a) = st.step(PipelineEvent::ResolveFailed);
    match a {
        PipelineAction::Finished { outcome } => assert!(matches!(
            outcome,
            PipelineOutcome::Failed { provider_id: 9, error: PipelineError::ProviderResolution }
        )),
        _ => panic!("expected a finished pipeline"),
    }

    let (st, _a) = PipelineState::start(ProviderRef { id: 4 });
    let provider = Provider {
        id: 4,
        name: "Bad".to_string(),
        url: "http://x/b".to_string(),
        html_element: "[".to_string(),
    };
    let (st, _a) = st.step(PipelineEvent::Resolved { provider });
    let (_st, a) = st.step(PipelineEvent::Fetched { body: "<p>5</p>".to_string() });
    match a {
        PipelineAction::Finished { outcome } => assert!(matches!(
            outcome,
            PipelineOutcome::Failed { provider_id: 4, error: PipelineError::Selector }
        )),
        _ => panic!("expected a finished pipeline"),
    }
}
