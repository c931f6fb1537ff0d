use henan_toponym::harvest::{Command, Event, HarvestConfig, Summary};
use henan_toponym::pacing::Pacing;
use henan_toponym::probe::{Probe, ProbePhase};
use henan_toponym::search::{Record, SearchType};

fn record(id: &str, name: &str, place_type: &str, code: Option<&str>) -> Record {
    Record {
        id: id.to_string(),
        place_code: String::new(),
        standard_name: name.to_string(),
        roman_alphabet_spelling: String::new(),
        ethnic_minorities_writing: None,
        place_type: place_type.to_string(),
        place_type_code: code.map(|c| c.to_string()),
        province_name: None,
        city_name: None,
        area_name: None,
        area: None,
        city: None,
        province: None,
    }
}

fn three_records() -> Vec<Record> {
    vec![
        record("id-1", "唐庄村", "农村居民点", Some("22200")),
        record("id-x", "中牟县", "县", Some("21300")),
        record("id-2", "赵村", "", Some("22200")),
    ]
}

struct Trace {
    rows: Vec<(String, u32)>,
    asked: Vec<String>,
    pauses: Vec<Pacing>,
    summary: Summary,
}

fn probe_county(found: Option<Vec<Record>>, failing: &[&str]) -> Trace {
    let config = HarvestConfig::default();
    let mut probe = Probe::new(config, "410122");
    let mut trace = Trace {
        rows: Vec::new(),
        asked: Vec::new(),
        pauses: Vec::new(),
        summary: probe.summary(),
    };
    let mut found = Some(found);
    let mut event: Event<u32> = Event::Begin;
    for _ in 0..10_000 {
        let command = probe.advance(event).expect("the probe accepts the event it asked for");
        event = match command {
            Command::Search { params, attempts } => {
                assert_eq!(params.code(), Some("410122"));
                assert_eq!(params.st_name(), "");
                assert_eq!(params.place_type_code(), Some("22200"));
                assert_eq!(params.search_type(), Some(&SearchType::Fuzzy));
                assert_eq!(params.page(), Some(1));
                assert_eq!(params.size(), Some(1000));
                assert_eq!(attempts, 5);
                Event::SearchFinished(found.take().unwrap())
            }
            Command::FetchDetail { id, name: _, attempts } => {
                assert_eq!(attempts, 3);
                trace.asked.push(id.clone());
                if failing.contains(&id.as_str()) {
                    Event::DetailFinished(None)
                } else {
                    Event::DetailFinished(Some(id.len() as u32))
                }
            }
            Command::WriteRow { id, record } => {
                trace.rows.push((id, record));
                Event::Done
            }
            Command::Pause { pacing } => {
                trace.pauses.push(pacing);
                Event::Done
            }
            Command::PersistLedger { .. } => panic!("a probe keeps no ledger"),
            Command::Finish { summary } => {
                assert_eq!(probe.phase(), ProbePhase::Finished);
                assert_eq!(summary, probe.summary());
                trace.summary = summary;
                return trace;
            }
        };
    }
    panic!("the probe did not finish");
}

#[test]
fn probe_fetches_every_settlement() {
    let trace = probe_county(Some(three_records()), &[]);
    assert_eq!(trace.asked, vec!["id-1", "id-2"]);
    assert_eq!(trace.rows, vec![("id-1".to_string(), 4), ("id-2".to_string(), 4)]);
    assert_eq!(trace.pauses, vec![Pacing::BetweenRecords, Pacing::BetweenRecords]);
    assert_eq!(
        trace.summary,
        Summary { total_settlements: 2, counties_processed: 1, failures_remaining: 0 }
    );
}

#[test]
fn probe_counts_failures_and_goes_on() {
    let trace = probe_county(Some(three_records()), &["id-1"]);
    assert_eq!(trace.asked, vec!["id-1", "id-2"]);
    assert_eq!(trace.rows, vec![("id-2".to_string(), 4)]);
    assert_eq!(trace.pauses, vec![Pacing::BetweenRecords, Pacing::BetweenRecords]);
    assert_eq!(
        trace.summary,
        Summary { total_settlements: 2, counties_processed: 1, failures_remaining: 1 }
    );
}

#[test]
fn probe_ends_when_search_is_exhausted() {
    let trace = probe_county(None, &[]);
    assert_eq!(trace.asked, Vec::<String>::new());
    assert_eq!(trace.rows, vec![]);
    assert_eq!(trace.pauses, vec![]);
    assert_eq!(
        trace.summary,
        Summary { total_settlements: 0, counties_processed: 1, failures_remaining: 0 }
    );
}

#[test]
fn probe_ends_when_no_settlement_is_found() {
    let trace = probe_county(Some(vec![record("id-x", "中牟县", "县", Some("21300"))]), &[]);
    assert_eq!(trace.asked, Vec::<String>::new());
    assert_eq!(trace.pauses, vec![]);
    assert_eq!(trace.summary.total_settlements, 0);
}

#[test]
fn probe_rejects_unexpected_events() {
    let mut probe = Probe::new(HarvestConfig::default(), "410122");
    assert_eq!(probe.phase(), ProbePhase::Ready);
    assert!(probe.advance::<u32>(Event::Done).is_none());
    assert!(probe.advance::<u32>(Event::DetailFinished(Some(1))).is_none());
    assert!(probe.advance::<u32>(Event::SearchFinished(None)).is_none());
    assert!(matches!(probe.advance::<u32>(Event::Begin), Some(Command::Search { .. })));
    assert!(probe.advance::<u32>(Event::Begin).is_none());
    assert!(probe.advance::<u32>(Event::Done).is_none());
    assert_eq!(probe.phase(), ProbePhase::Searching);
    assert!(matches!(
        probe.advance::<u32>(Event::SearchFinished(None)),
        Some(Command::Finish { .. })
    ));
    assert!(probe.advance::<u32>(Event::Begin).is_none());
    assert!(probe.advance::<u32>(Event::Done).is_none());
    assert_eq!(probe.phase(), ProbePhase::Finished);
}
