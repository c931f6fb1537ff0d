//! Selecting rural settlements from search results.

use vstd::prelude::*;
use crate::search::{
    Record, RecordView, SearchParams, SearchParamsBuilder, SearchParamsView, SearchType,
};
use crate::text::{contains_char, text_eq};

verus! {

/// The place-type label of a rural settlement.
pub const RURAL_SETTLEMENT_LABEL: &'static str = "农村居民点";

/// The place-type code of a rural settlement.
pub const RURAL_SETTLEMENT_CODE: &'static str = "22200";

/// The character that marks a village in a place name.
pub const VILLAGE_GLYPH: char = '村';

/// A record is a rural settlement if it carries the rural settlement code
/// and either the rural settlement label as its place type or the village
/// character in its name. A record without a place-type code is none.
pub open spec fn spec_is_target_settlement(record: RecordView) -> bool {
    (record.place_type == RURAL_SETTLEMENT_LABEL@ && record.place_type_code == Some(
        RURAL_SETTLEMENT_CODE@,
    )) || (record.standard_name.contains(VILLAGE_GLYPH) && record.place_type_code == Some(
        RURAL_SETTLEMENT_CODE@,
    ))
}

/// Whether a search result is a rural settlement.
pub fn is_target_settlement(record: &Record) -> (wanted: bool)
    ensures
        wanted == spec_is_target_settlement(record@),
{
    let coded = match &record.place_type_code {
        Some(code) => text_eq(code.as_str(), RURAL_SETTLEMENT_CODE),
        None => false,
    };
    coded && (text_eq(record.place_type.as_str(), RURAL_SETTLEMENT_LABEL) || contains_char(
        record.standard_name.as_str(),
        VILLAGE_GLYPH,
    ))
}

/// The rural settlements among `records`, in their order.
pub open spec fn spec_filter_settlements(records: Seq<RecordView>) -> Seq<RecordView> {
    records.filter(|record: RecordView| spec_is_target_settlement(record))
}

/// Keeps the rural settlements among the results of a search, in their
/// order.
pub fn filter_settlements(records: &Vec<Record>) -> (kept: Vec<Record>)
    ensures
        kept.deep_view() == spec_filter_settlements(records.deep_view()),
{
    broadcast use vstd::seq_lib::group_seq_properties;

    let ghost wanted = |record: RecordView| spec_is_target_settlement(record);
    let mut kept: Vec<Record> = Vec::new();
    let mut i: usize = 0;
    assert(kept.deep_view() =~= Seq::empty());
    assert(records.deep_view().take(0).filter(wanted) =~= Seq::empty()) by {
        reveal(Seq::filter);
    }
    while i < records.len()
        invariant
            i <= records.len(),
            wanted == |record: RecordView| spec_is_target_settlement(record),
            kept.deep_view() == records.deep_view().take(i as int).filter(wanted),
        decreases records.len() - i,
    {
        let ghost before = kept.deep_view();
        let ghost seen = records.deep_view().take(i as int);
        if is_target_settlement(&records[i]) {
            kept.push(records[i].clone());
            assert(kept.deep_view() =~= before.push(records[i as int]@));
        }
        proof {
            assert(records.deep_view().take(i + 1) =~= seen.push(records[i as int]@));
            seen.lemma_filter_push(records[i as int]@, wanted);
        }
        i = i + 1;
    }
    assert(records.deep_view().take(records.len() as int) =~= records.deep_view());
    kept
}

/// A rural settlement whose details are to be fetched.
#[derive(Debug, PartialEq, Eq)]
pub struct Settlement {
    /// The registry's identifier of the place.
    pub id: String,
    /// The standard name of the place.
    pub name: String,
}

/// What a `Settlement` holds.
pub struct SettlementView {
    pub id: Seq<char>,
    pub name: Seq<char>,
}

impl View for Settlement {
    type V = SettlementView;

    open spec fn view(&self) -> SettlementView {
        SettlementView { id: self.id@, name: self.name@ }
    }
}

impl DeepView for Settlement {
    type V = SettlementView;

    open spec fn deep_view(&self) -> SettlementView {
        self@
    }
}

/// The settlement that a record stands for.
pub open spec fn settlement_of(record: RecordView) -> SettlementView {
    SettlementView { id: record.id, name: record.standard_name }
}

/// The rural settlements among the results of a search, in their order, each
/// with its identifier and name.
pub open spec fn spec_targets(records: Seq<RecordView>) -> Seq<SettlementView> {
    spec_filter_settlements(records).map_values(|record: RecordView| settlement_of(record))
}

/// Picks the rural settlements from the results of a search.
pub fn collect_targets(records: &Vec<Record>) -> (targets: Vec<Settlement>)
    ensures
        targets.deep_view() == spec_targets(records.deep_view()),
{
    broadcast use vstd::seq_lib::group_seq_properties;

    let ghost wanted = |record: RecordView| spec_is_target_settlement(record);
    let ghost project = |record: RecordView| settlement_of(record);
    let mut targets: Vec<Settlement> = Vec::new();
    let mut i: usize = 0;
    assert(records.deep_view().take(0).filter(wanted) =~= Seq::empty()) by {
        reveal(Seq::filter);
    }
    assert(targets.deep_view() =~= records.deep_view().take(0).filter(wanted).map_values(project));
    while i < records.len()
        invariant
            i <= records.len(),
            wanted == |record: RecordView| spec_is_target_settlement(record),
            project == |record: RecordView| settlement_of(record),
            targets.deep_view() == records.deep_view().take(i as int).filter(wanted).map_values(
                project,
            ),
        decreases records.len() - i,
    {
        let ghost before = targets.deep_view();
        let ghost seen = records.deep_view().take(i as int);
        let record = &records[i];
        if is_target_settlement(record) {
            targets.push(Settlement { id: record.id.clone(), name: record.standard_name.clone() });
            assert(targets.deep_view() =~= before.push(settlement_of(record@)));
        }
        proof {
            assert(records.deep_view().take(i + 1) =~= seen.push(record@));
            seen.lemma_filter_push(record@, wanted);
            assert(seen.filter(wanted).push(record@).map_values(project) =~= seen.filter(
                wanted,
            ).map_values(project).push(settlement_of(record@)));
        }
        i = i + 1;
    }
    assert(records.deep_view().take(records.len() as int) =~= records.deep_view());
    targets
}

/// The search that lists the rural settlements of one county: every name,
/// the rural settlement code, the county as the division to search in,
/// fuzzy matching, and the first page of `page_size` records.
pub open spec fn spec_county_search(county_code: Seq<char>, page_size: usize) -> SearchParamsView {
    SearchParamsView {
        st_name: Seq::empty(),
        place_type_code: Some(RURAL_SETTLEMENT_CODE@),
        year: None,
        search_type: Some(SearchType::Fuzzy),
        code: Some(county_code),
        page: Some(1),
        size: Some(page_size),
    }
}

/// Builds the search that lists the rural settlements of one county.
pub fn county_search(county_code: &str, page_size: usize) -> (params: SearchParams)
    ensures
        params@ == spec_county_search(county_code@, page_size),
{
    proof {
        reveal_strlit("");
    }
    let built = SearchParamsBuilder::default().st_name("").place_type_code(
        RURAL_SETTLEMENT_CODE,
    ).code(county_code).search_type(SearchType::Fuzzy).page(1).size(page_size).build();
    match built {
        Ok(params) => {
            assert(params@.st_name =~= Seq::empty());
            params
        },
        Err(_) => {
            proof {
                assert(false);
            }
            unreached()
        },
    }
}

} // verus!
