use henan_toponym::search::{Record, SearchType};
use henan_toponym::settlement::{
    collect_targets, county_search, filter_settlements, is_target_settlement, Settlement,
    RURAL_SETTLEMENT_CODE, RURAL_SETTLEMENT_LABEL, VILLAGE_GLYPH,
};

fn record(id: &str, name: &str, place_type: &str, code: Option<&str>) -> Record {
    Record {
        id: id.to_string(),
        place_code: String::new(),
        standard_name: name.to_string(),
        roman_alphabet_spelling: String::new(),
        ethnic_minorities_writing: None,
        place_type: place_type.to_string(),
        place_type_code: code.map(|c| c.to_string()),
        province_name: None,
        city_name: None,
        area_name: None,
        area: None,
        city: None,
        province: None,
    }
}

#[test]
fn constants_of_the_filter() {
    assert_eq!(RURAL_SETTLEMENT_LABEL, "农村居民点");
    assert_eq!(RURAL_SETTLEMENT_CODE, "22200");
    assert_eq!(VILLAGE_GLYPH, '村');
}

#[test]
fn label_and_code_qualify() {
    assert!(is_target_settlement(&record("1", "唐庄", "农村居民点", Some("22200"))));
}

#[test]
fn village_name_and_code_qualify() {
    assert!(is_target_settlement(&record("1", "唐庄村", "", Some("22200"))));
    assert!(is_target_settlement(&record("1", "村东头", "其他", Some("22200"))));
}

#[test]
fn label_and_name_and_code_qualify() {
    assert!(is_target_settlement(&record("1", "唐庄村", "农村居民点", Some("22200"))));
}

#[test]
fn missing_code_never_qualifies() {
    assert!(!is_target_settlement(&record("1", "唐庄村", "农村居民点", None)));
    assert!(!is_target_settlement(&record("1", "唐庄", "农村居民点", None)));
    assert!(!is_target_settlement(&record("1", "唐庄村", "", None)));
}

#[test]
fn other_code_never_qualifies() {
    assert!(!is_target_settlement(&record("1", "唐庄村", "农村居民点", Some("22100"))));
    assert!(!is_target_settlement(&record("1", "唐庄村", "农村居民点", Some(""))));
    assert!(!is_target_settlement(&record("1", "唐庄村", "农村居民点", Some("222000"))));
}

#[test]
fn code_alone_does_not_qualify() {
    assert!(!is_target_settlement(&record("1", "唐庄", "城镇居民点", Some("22200"))));
    assert!(!is_target_settlement(&record("1", "", "", Some("22200"))));
    assert!(!is_target_settlement(&record("1", "唐庄", "农村居民点 ", Some("22200"))));
}

#[test]
fn filter_keeps_order_and_drops_the_rest() {
    let records = vec![
        record("a", "唐庄村", "农村居民点", Some("22200")),
        record("b", "中牟县", "县", Some("21300")),
        record("c", "赵村", "", Some("22200")),
        record("d", "李庄", "农村居民点", None),
        record("e", "李庄", "农村居民点", Some("22200")),
    ];
    let kept = filter_settlements(&records);
    let ids: Vec<&str> = kept.iter().map(|r| r.id.as_str()).collect();
    assert_eq!(ids, vec!["a", "c", "e"]);
    assert_eq!(kept[0], records[0]);
    assert_eq!(kept[1], records[2]);
    assert_eq!(kept[2], records[4]);
}

#[test]
fn filter_of_nothing_is_nothing() {
    assert_eq!(filter_settlements(&vec![]), vec![]);
    assert_eq!(collect_targets(&vec![]), vec![]);
}

#[test]
fn filter_agrees_with_predicate() {
    let records = vec![
        record("a", "村", "x", Some("22200")),
        record("b", "庄", "农村居民点", Some("22200")),
        record("c", "庄", "x", Some("22200")),
        record("d", "村", "农村居民点", Some("2220")),
    ];
    let kept = filter_settlements(&records);
    let expected: Vec<Record> =
        records.iter().filter(|r| is_target_settlement(r)).map(|r| r.clone()).collect();
    assert_eq!(kept, expected);
    assert_eq!(kept.len(), 2);
}

#[test]
fn targets_carry_id_and_name() {
    let records = vec![
        record("a", "唐庄村", "农村居民点", Some("22200")),
        record("b", "中牟县", "县", Some("21300")),
        record("c", "赵村", "", Some("22200")),
    ];
    assert_eq!(
        collect_targets(&records),
        vec![
            Settlement { id: "a".to_string(), name: "唐庄村".to_string() },
            Settlement { id: "c".to_string(), name: "赵村".to_string() },
        ]
    );
}

#[test]
fn county_search_parameters() {
    let params = county_search("410122", 1000);
    assert_eq!(params.st_name(), "");
    assert_eq!(params.place_type_code(), Some("22200"));
    assert_eq!(params.code(), Some("410122"));
    assert_eq!(params.simplified_code(), Some("410122".to_string()));
    assert_eq!(params.search_type(), Some(&SearchType::Fuzzy));
    assert_eq!(params.page(), Some(1));
    assert_eq!(params.size(), Some(1000));
    assert_eq!(params.year(), None);
}
