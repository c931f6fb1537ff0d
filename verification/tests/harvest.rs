use henan_toponym::harvest::{Command, Event, Harvest, HarvestConfig, Phase, Summary};
use henan_toponym::ledger::{FailedRequest, Ledger};
use henan_toponym::pacing::Pacing;
use henan_toponym::retry::{Retry, Step};
use henan_toponym::search::{Record, SearchType};

fn record(id: &str, name: &str, place_type: &str, code: Option<&str>) -> Record {
    Record {
        id: id.to_string(),
        place_code: String::new(),
        standard_name: name.to_string(),
        roman_alphabet_spelling: String::new(),
        ethnic_minorities_writing: None,
        place_type: place_type.to_string(),
        place_type_code: code.map(|c| c.to_string()),
        province_name: None,
        city_name: None,
        area_name: None,
        area: None,
        city: None,
        province: None,
    }
}

fn failed(id: &str, name: &str, county: &str, retry_count: u32) -> FailedRequest {
    FailedRequest {
        id: id.to_string(),
        name: name.to_string(),
        county_code: county.to_string(),
        retry_count,
    }
}

fn three_records() -> Vec<Record> {
    vec![
        record("id-1", "唐庄村", "农村居民点", Some("22200")),
        record("id-x", "中牟县", "县", Some("21300")),
        record("id-2", "赵村", "", Some("22200")),
    ]
}

/// A registry that answers from a script. A search fails for the counties in
/// `dead_counties`; a detail request for an id fails as often as
/// `detail_failures` says (`u32::MAX` for always).
struct Registry {
    results: Vec<(String, Vec<Record>)>,
    dead_counties: Vec<String>,
    detail_failures: Vec<(String, u32)>,
    search_attempts: Vec<(String, u32)>,
    detail_attempts: Vec<(String, u32)>,
}

impl Registry {
    fn new() -> Registry {
        Registry {
            results: Vec::new(),
            dead_counties: Vec::new(),
            detail_failures: Vec::new(),
            search_attempts: Vec::new(),
            detail_attempts: Vec::new(),
        }
    }

    fn search(&mut self, county: &str, max_attempts: u32) -> Option<Vec<Record>> {
        let dead = self.dead_counties.iter().any(|c| c == county);
        let mut retry = Retry::new(max_attempts);
        let mut attempts = 0;
        let outcome = loop {
            attempts += 1;
            let answer: Result<Vec<Record>, ()> = if dead {
                Err(())
            } else {
                Ok(self
                    .results
                    .iter()
                    .find(|(c, _)| c == county)
                    .map(|(_, records)| records.clone())
                    .unwrap_or_default())
            };
            match retry.record(answer) {
                Step::Done(result) => break result.ok(),
                Step::Wait { .. } => {}
            }
        };
        self.search_attempts.push((county.to_string(), attempts));
        outcome
    }

    fn details(&mut self, id: &str, max_attempts: u32) -> Option<String> {
        let mut retry = Retry::new(max_attempts);
        let mut attempts = 0;
        let outcome = loop {
            attempts += 1;
            let slot = self.detail_failures.iter_mut().find(|(i, _)| i == id);
            let answer: Result<String, ()> = match slot {
                Some((_, left)) if *left > 0 => {
                    if *left != u32::MAX {
                        *left -= 1;
                    }
                    Err(())
                }
                _ => Ok(format!("details of {}", id)),
            };
            match retry.record(answer) {
                Step::Done(result) => break result.ok(),
                Step::Wait { .. } => {}
            }
        };
        self.detail_attempts.push((id.to_string(), attempts));
        outcome
    }
}

struct Outcome {
    rows: Vec<(String, String)>,
    snapshots: Vec<Vec<FailedRequest>>,
    pauses: Vec<Pacing>,
    searched: Vec<String>,
    summary: Summary,
    ledger: Vec<FailedRequest>,
}

fn harvest(
    config: HarvestConfig,
    counties: &[&str],
    start: Vec<FailedRequest>,
    registry: &mut Registry,
) -> Outcome {
    let counties: Vec<String> = counties.iter().map(|c| c.to_string()).collect();
    let mut machine = Harvest::new(config, counties, Ledger::load(Some(start)));
    let mut outcome = Outcome {
        rows: Vec::new(),
        snapshots: Vec::new(),
        pauses: Vec::new(),
        searched: Vec::new(),
        summary: machine.summary(),
        ledger: Vec::new(),
    };
    let mut event: Event<String> = Event::Begin;
    for _ in 0..100_000 {
        let command = machine.advance(event).expect("the harvest accepts the event it asked for");
        event = match command {
            Command::Search { params, attempts } => {
                assert_eq!(params.st_name(), "");
                assert_eq!(params.place_type_code(), Some("22200"));
                assert_eq!(params.search_type(), Some(&SearchType::Fuzzy));
                assert_eq!(params.page(), Some(1));
                assert_eq!(params.size(), Some(config.page_size));
                assert_eq!(attempts, config.search_attempts);
                let county = params.code().unwrap().to_string();
                outcome.searched.push(county.clone());
                Event::SearchFinished(registry.search(&county, attempts))
            }
            Command::FetchDetail { id, name: _, attempts } => {
                assert_eq!(attempts, config.detail_attempts);
                Event::DetailFinished(registry.details(&id, attempts))
            }
            Command::WriteRow { id, record } => {
                outcome.rows.push((id, record));
                Event::Done
            }
            Command::PersistLedger { entries } => {
                assert_eq!(entries, machine.ledger().snapshot());
                outcome.snapshots.push(entries);
                Event::Done
            }
            Command::Pause { pacing } => {
                outcome.pauses.push(pacing);
                Event::Done
            }
            Command::Finish { summary } => {
                assert!(machine.is_finished());
                assert_eq!(summary, machine.summary());
                outcome.summary = summary;
                outcome.ledger = machine.ledger().snapshot();
                return outcome;
            }
        };
    }
    panic!("the harvest did not finish");
}

fn row(id: &str) -> (String, String) {
    (id.to_string(), format!("details of {}", id))
}

#[test]
fn default_config_has_the_usual_limits() {
    let config = HarvestConfig::default();
    assert_eq!(config.search_attempts, 5);
    assert_eq!(config.detail_attempts, 3);
    assert_eq!(config.page_size, 1000);
    assert_eq!(config.max_sweeps, 5);
    assert_eq!(config.entry_cap, 3);
    assert!(config.is_valid());
    assert!(!HarvestConfig { search_attempts: 65, ..config }.is_valid());
    assert!(!HarvestConfig { detail_attempts: 65, ..config }.is_valid());
    assert!(HarvestConfig { detail_attempts: 64, search_attempts: 64, ..config }.is_valid());
}

#[test]
fn scenario_all_details_fetched() {
    let mut registry = Registry::new();
    registry.results.push(("410122".to_string(), three_records()));
    let outcome = harvest(HarvestConfig::default(), &["410122"], vec![], &mut registry);
    assert_eq!(outcome.rows, vec![row("id-1"), row("id-2")]);
    assert_eq!(outcome.snapshots, Vec::<Vec<FailedRequest>>::new());
    assert_eq!(outcome.ledger, vec![]);
    assert_eq!(
        outcome.summary,
        Summary { total_settlements: 2, counties_processed: 1, failures_remaining: 0 }
    );
    assert_eq!(outcome.searched, vec!["410122"]);
    assert_eq!(
        outcome.pauses,
        vec![Pacing::BetweenRecords, Pacing::BetweenRecords, Pacing::BetweenCounties]
    );
    assert_eq!(registry.search_attempts, vec![("410122".to_string(), 1)]);
    assert_eq!(registry.detail_attempts, vec![("id-1".to_string(), 1), ("id-2".to_string(), 1)]);
}

#[test]
fn scenario_second_detail_fails_in_main_pass() {
    let mut registry = Registry::new();
    registry.results.push(("410122".to_string(), three_records()));
    registry.detail_failures.push(("id-2".to_string(), u32::MAX));
    let config = HarvestConfig { max_sweeps: 0, ..HarvestConfig::default() };
    let outcome = harvest(config, &["410122"], vec![], &mut registry);
    assert_eq!(outcome.rows, vec![row("id-1")]);
    let expected = vec![failed("id-2", "赵村", "410122", 0)];
    assert_eq!(outcome.snapshots[0], expected);
    assert_eq!(outcome.ledger, expected);
    assert_eq!(
        outcome.summary,
        Summary { total_settlements: 2, counties_processed: 1, failures_remaining: 1 }
    );
    assert_eq!(registry.detail_attempts, vec![("id-1".to_string(), 1), ("id-2".to_string(), 3)]);
}

#[test]
fn scenario_second_detail_fails_for_good() {
    let mut registry = Registry::new();
    registry.results.push(("410122".to_string(), three_records()));
    registry.detail_failures.push(("id-2".to_string(), u32::MAX));
    let outcome = harvest(HarvestConfig::default(), &["410122"], vec![], &mut registry);
    assert_eq!(outcome.rows, vec![row("id-1")]);
    assert_eq!(outcome.snapshots[0], vec![failed("id-2", "赵村", "410122", 0)]);
    assert_eq!(outcome.ledger, vec![failed("id-2", "赵村", "410122", 3)]);
    assert_eq!(outcome.snapshots.last().unwrap(), &outcome.ledger);
    assert_eq!(
        outcome.summary,
        Summary { total_settlements: 2, counties_processed: 1, failures_remaining: 1 }
    );
    // one request in the main pass and one in each of three sweeps, three attempts each
    assert_eq!(
        registry.detail_attempts,
        vec![
            ("id-1".to_string(), 1),
            ("id-2".to_string(), 3),
            ("id-2".to_string(), 3),
            ("id-2".to_string(), 3),
            ("id-2".to_string(), 3),
        ]
    );
}

#[test]
fn scenario_search_exhausted_skips_the_county() {
    let mut registry = Registry::new();
    registry.dead_counties.push("410122".to_string());
    registry.results.push(("410181".to_string(), three_records()));
    let outcome = harvest(HarvestConfig::default(), &["410122", "410181"], vec![], &mut registry);
    assert_eq!(outcome.searched, vec!["410122", "410181"]);
    assert_eq!(
        registry.search_attempts,
        vec![("410122".to_string(), 5), ("410181".to_string(), 1)]
    );
    assert_eq!(outcome.rows, vec![row("id-1"), row("id-2")]);
    assert_eq!(outcome.ledger, vec![]);
    assert_eq!(outcome.snapshots, Vec::<Vec<FailedRequest>>::new());
    assert_eq!(
        outcome.summary,
        Summary { total_settlements: 2, counties_processed: 2, failures_remaining: 0 }
    );
    assert_eq!(
        outcome.pauses,
        vec![
            Pacing::AfterFailedSearch,
            Pacing::BetweenRecords,
            Pacing::BetweenRecords,
            Pacing::BetweenCounties
        ]
    );
}

#[test]
fn scenario_only_county_search_exhausted() {
    let mut registry = Registry::new();
    registry.dead_counties.push("410122".to_string());
    let outcome = harvest(HarvestConfig::default(), &["410122"], vec![], &mut registry);
    assert_eq!(outcome.rows, vec![]);
    assert_eq!(outcome.ledger, vec![]);
    assert_eq!(
        outcome.summary,
        Summary { total_settlements: 0, counties_processed: 1, failures_remaining: 0 }
    );
    assert_eq!(outcome.pauses, vec![Pacing::AfterFailedSearch]);
}

#[test]
fn no_counties_ends_at_once() {
    let mut registry = Registry::new();
    let outcome = harvest(HarvestConfig::default(), &[], vec![], &mut registry);
    assert_eq!(
        outcome.summary,
        Summary { total_settlements: 0, counties_processed: 0, failures_remaining: 0 }
    );
    assert_eq!(outcome.rows, vec![]);
    assert_eq!(outcome.pauses, vec![]);
    assert_eq!(outcome.searched, Vec::<String>::new());
}

#[test]
fn counties_are_searched_in_their_order() {
    let mut registry = Registry::new();
    let codes = ["410181", "410122", "", "410122", "419001"];
    let outcome = harvest(HarvestConfig::default(), &codes, vec![], &mut registry);
    assert_eq!(outcome.searched, codes);
    assert_eq!(outcome.summary.counties_processed, 5);
    assert_eq!(outcome.summary.total_settlements, 0);
    assert_eq!(outcome.pauses, vec![Pacing::BetweenCounties; 5]);
}

#[test]
fn county_without_settlements_writes_nothing() {
    let mut registry = Registry::new();
    registry
        .results
        .push(("410122".to_string(), vec![record("id-x", "中牟县", "县", Some("21300"))]));
    let outcome = harvest(HarvestConfig::default(), &["410122"], vec![], &mut registry);
    assert_eq!(outcome.rows, vec![]);
    assert_eq!(outcome.summary.total_settlements, 0);
    assert_eq!(registry.detail_attempts, vec![]);
}

#[test]
fn failure_is_resolved_by_a_later_sweep() {
    let mut registry = Registry::new();
    registry.results.push(("410122".to_string(), three_records()));
    // three failures in the main pass, three in the first sweep, then success
    registry.detail_failures.push(("id-1".to_string(), 6));
    let outcome = harvest(HarvestConfig::default(), &["410122"], vec![], &mut registry);
    assert_eq!(outcome.rows, vec![row("id-2"), row("id-1")]);
    assert_eq!(outcome.ledger, vec![]);
    assert_eq!(
        outcome.snapshots,
        vec![
            vec![failed("id-1", "唐庄村", "410122", 0)],
            vec![failed("id-1", "唐庄村", "410122", 0)],
            vec![failed("id-1", "唐庄村", "410122", 1)],
            vec![],
        ]
    );
    assert_eq!(
        outcome.summary,
        Summary { total_settlements: 2, counties_processed: 1, failures_remaining: 0 }
    );
    assert_eq!(
        outcome.pauses,
        vec![
            Pacing::BetweenRecords,
            Pacing::BetweenRecords,
            Pacing::BetweenCounties,
            Pacing::BetweenRetries,
            Pacing::BetweenSweeps,
            Pacing::BetweenRetries,
            Pacing::BetweenSweeps,
        ]
    );
}

#[test]
fn clean_sweep_empties_the_ledger() {
    let mut registry = Registry::new();
    let start = vec![
        failed("old-1", "甲村", "410122", 0),
        failed("old-2", "乙村", "410181", 2),
        failed("old-3", "丙村", "410181", 1),
    ];
    let outcome = harvest(HarvestConfig::default(), &[], start, &mut registry);
    assert_eq!(outcome.rows, vec![row("old-1"), row("old-2"), row("old-3")]);
    assert_eq!(outcome.ledger, vec![]);
    assert_eq!(outcome.snapshots, vec![vec![]]);
    assert_eq!(outcome.summary.failures_remaining, 0);
    assert_eq!(
        outcome.pauses,
        vec![
            Pacing::BetweenRetries,
            Pacing::BetweenRetries,
            Pacing::BetweenRetries,
            Pacing::BetweenSweeps
        ]
    );
}

#[test]
fn abandoned_requests_stay_in_the_ledger() {
    let mut registry = Registry::new();
    let start = vec![
        failed("old-1", "甲村", "410122", 3),
        failed("old-2", "乙村", "410181", 0),
        failed("old-3", "丙村", "410181", 7),
    ];
    let outcome = harvest(HarvestConfig::default(), &[], start, &mut registry);
    assert_eq!(outcome.rows, vec![row("old-2")]);
    let left = vec![failed("old-1", "甲村", "410122", 3), failed("old-3", "丙村", "410181", 7)];
    assert_eq!(outcome.ledger, left);
    assert_eq!(outcome.summary.failures_remaining, 2);
    // five sweeps write the ledger, and it is written once more at the end
    assert_eq!(outcome.snapshots, vec![left.clone(); 6]);
    assert_eq!(registry.detail_attempts, vec![("old-2".to_string(), 1)]);
}

#[test]
fn resolved_id_takes_abandoned_twin_along() {
    let mut registry = Registry::new();
    let start = vec![failed("twin", "甲村", "410122", 3), failed("twin", "甲村", "410122", 0)];
    let outcome = harvest(HarvestConfig::default(), &[], start, &mut registry);
    assert_eq!(outcome.rows, vec![row("twin")]);
    assert_eq!(outcome.ledger, vec![]);
}

#[test]
fn sweeps_stop_at_their_maximum() {
    let mut registry = Registry::new();
    registry.detail_failures.push(("old".to_string(), u32::MAX));
    let config = HarvestConfig { max_sweeps: 2, entry_cap: 10, ..HarvestConfig::default() };
    let start = vec![failed("old", "甲村", "410122", 0)];
    let outcome = harvest(config, &[], start, &mut registry);
    assert_eq!(outcome.ledger, vec![failed("old", "甲村", "410122", 2)]);
    assert_eq!(registry.detail_attempts.len(), 2);
    assert_eq!(
        outcome.pauses,
        vec![
            Pacing::BetweenRetries,
            Pacing::BetweenSweeps,
            Pacing::BetweenRetries,
            Pacing::BetweenSweeps
        ]
    );
}

#[test]
fn without_sweeps_the_ledger_is_written_once_more() {
    let mut registry = Registry::new();
    let config = HarvestConfig { max_sweeps: 0, ..HarvestConfig::default() };
    let start = vec![failed("old", "甲村", "410122", 0)];
    let outcome = harvest(config, &[], start.clone(), &mut registry);
    assert_eq!(outcome.rows, vec![]);
    assert_eq!(outcome.snapshots, vec![start.clone()]);
    assert_eq!(outcome.ledger, start);
}

#[test]
fn ledger_is_written_again_after_each_county() {
    let mut registry = Registry::new();
    registry.results.push(("410122".to_string(), three_records()));
    registry.detail_failures.push(("old".to_string(), u32::MAX));
    let config = HarvestConfig { max_sweeps: 0, ..HarvestConfig::default() };
    let start = vec![failed("old", "甲村", "410100", 1)];
    let outcome = harvest(config, &["410122", "410181"], start.clone(), &mut registry);
    assert_eq!(outcome.rows, vec![row("id-1"), row("id-2")]);
    assert_eq!(outcome.snapshots, vec![start.clone(), start.clone(), start.clone()]);
}

#[test]
fn every_matched_id_is_written_or_in_the_ledger() {
    let mut registry = Registry::new();
    let mut first = Vec::new();
    let mut second = Vec::new();
    for i in 0..20 {
        first.push(record(&format!("a-{}", i), "某村", "", Some("22200")));
        second.push(record(&format!("b-{}", i), "某庄", "农村居民点", Some("22200")));
        second.push(record(&format!("n-{}", i), "某庄", "农村居民点", None));
    }
    registry.results.push(("410122".to_string(), first));
    registry.results.push(("410181".to_string(), second));
    registry.detail_failures.push(("a-3".to_string(), u32::MAX));
    registry.detail_failures.push(("a-9".to_string(), 4));
    registry.detail_failures.push(("b-0".to_string(), 9));
    registry.detail_failures.push(("b-19".to_string(), u32::MAX));
    registry.detail_failures.push(("old".to_string(), 3));
    let start = vec![failed("old", "甲村", "410100", 2), failed("gone", "乙村", "410100", 5)];
    let outcome = harvest(HarvestConfig::default(), &["410122", "410181"], start, &mut registry);
    assert_eq!(outcome.summary.total_settlements, 40);
    let mut accounted: Vec<String> = outcome.rows.iter().map(|(id, _)| id.clone()).collect();
    accounted.extend(outcome.ledger.iter().map(|e| e.id.clone()));
    accounted.sort();
    let mut expected: Vec<String> = (0..20).map(|i| format!("a-{}", i)).collect();
    expected.extend((0..20).map(|i| format!("b-{}", i)));
    expected.push("old".to_string());
    expected.push("gone".to_string());
    expected.sort();
    assert_eq!(accounted, expected);
    let left: Vec<&str> = outcome.ledger.iter().map(|e| e.id.as_str()).collect();
    assert_eq!(left, vec!["old", "gone", "a-3", "b-19"]);
    assert_eq!(outcome.summary.failures_remaining, 4);
}

#[test]
fn unexpected_events_change_nothing() {
    let mut machine =
        Harvest::new(HarvestConfig::default(), vec!["410122".to_string()], Ledger::new());
    assert_eq!(machine.phase(), Phase::Ready);
    assert!(machine.advance::<String>(Event::Done).is_none());
    assert!(machine.advance::<String>(Event::SearchFinished(None)).is_none());
    assert!(machine.advance::<String>(Event::DetailFinished(None)).is_none());
    assert_eq!(machine.phase(), Phase::Ready);
    assert!(matches!(machine.advance::<String>(Event::Begin), Some(Command::Search { .. })));
    assert_eq!(machine.phase(), Phase::Searching);
    assert!(machine.advance::<String>(Event::Begin).is_none());
    assert!(machine.advance::<String>(Event::Done).is_none());
    assert!(machine.advance::<String>(Event::DetailFinished(Some("x".to_string()))).is_none());
    assert_eq!(machine.phase(), Phase::Searching);
    assert_eq!(machine.summary().counties_processed, 1);
    let command = machine.advance::<String>(Event::SearchFinished(Some(three_records())));
    assert!(matches!(command, Some(Command::FetchDetail { .. })));
    assert!(machine.advance::<String>(Event::Done).is_none());
    assert!(machine.advance::<String>(Event::SearchFinished(None)).is_none());
    assert_eq!(machine.phase(), Phase::Fetching);
}

#[test]
fn finished_harvest_accepts_nothing() {
    let mut machine = Harvest::new(HarvestConfig::default(), vec![], Ledger::new());
    assert!(matches!(machine.advance::<String>(Event::Begin), Some(Command::Finish { .. })));
    assert!(machine.is_finished());
    assert!(machine.advance::<String>(Event::Begin).is_none());
    assert!(machine.advance::<String>(Event::Done).is_none());
    assert!(machine.advance::<String>(Event::SearchFinished(Some(vec![]))).is_none());
    assert!(machine.advance::<String>(Event::DetailFinished(None)).is_none());
    assert!(machine.is_finished());
}

#[test]
fn phases_of_one_record() {
    let mut machine =
        Harvest::new(HarvestConfig::default(), vec!["410122".to_string()], Ledger::new());
    machine.advance::<String>(Event::Begin);
    let records = vec![record("id-1", "唐庄村", "农村居民点", Some("22200"))];
    let fetch = machine.advance::<String>(Event::SearchFinished(Some(records)));
    match fetch {
        Some(Command::FetchDetail { id, name, attempts }) => {
            assert_eq!(id, "id-1");
            assert_eq!(name, "唐庄村");
            assert_eq!(attempts, 3);
        }
        _ => panic!("expected a detail request"),
    }
    assert_eq!(machine.summary().total_settlements, 1);
    let write = machine.advance(Event::DetailFinished(Some("payload".to_string())));
    match write {
        Some(Command::WriteRow { id, record }) => {
            assert_eq!(id, "id-1");
            assert_eq!(record, "payload");
        }
        _ => panic!("expected a row"),
    }
    assert_eq!(machine.phase(), Phase::Writing);
    let pause = machine.advance::<String>(Event::Done);
    assert!(matches!(pause, Some(Command::Pause { pacing: Pacing::BetweenRecords })));
    assert_eq!(machine.phase(), Phase::RecordPause);
    let pause = machine.advance::<String>(Event::Done);
    assert!(matches!(pause, Some(Command::Pause { pacing: Pacing::BetweenCounties })));
    assert_eq!(machine.phase(), Phase::CountyPause);
    let finish = machine.advance::<String>(Event::Done);
    match finish {
        Some(Command::Finish { summary }) => assert_eq!(
            summary,
            Summary { total_settlements: 1, counties_processed: 1, failures_remaining: 0 }
        ),
        _ => panic!("expected the end"),
    }
}
