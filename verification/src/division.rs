//! Administrative divisions: the query for a division tree, and the county
//! codes that a province's tree holds.

use vstd::prelude::*;
use vstd::string::StringExecFns;
use vstd::utf8::{decode_utf8, encode_utf8, is_ascii_chars, is_char_boundary};
use crate::text::{
    clone_text, collect_lines, lines_after, signed_decimal, signed_decimal_string, spec_lines,
    strip_carriage_return, text_eq,
};

verus! {

/// How deep below the queried division the registry should descend.
#[derive(Debug, Clone, Copy, PartialEq, Eq, Structural)]
pub enum QueryLevel {
    /// Only the queried division itself.
    Current,
    /// The division and its direct children.
    Child,
    /// The division, its children and its grandchildren.
    GrandChild,
}

impl QueryLevel {
    /// The depth as the registry counts it.
    pub open spec fn spec_depth(self) -> nat {
        match self {
            QueryLevel::Current => 0,
            QueryLevel::Child => 1,
            QueryLevel::GrandChild => 2,
        }
    }

    /// The depth as the registry counts it: 0, 1 or 2.
    pub fn depth(&self) -> (d: u8)
        ensures
            d == self.spec_depth(),
    {
        match self {
            QueryLevel::Current => 0,
            QueryLevel::Child => 1,
            QueryLevel::GrandChild => 2,
        }
    }

    /// The depth as it is written in a request.
    pub open spec fn spec_label(self) -> Seq<char> {
        match self {
            QueryLevel::Current => "0"@,
            QueryLevel::Child => "1"@,
            QueryLevel::GrandChild => "2"@,
        }
    }

    /// The depth as it is written in a request.
    pub fn label(&self) -> (word: &'static str)
        ensures
            word@ == self.spec_label(),
    {
        match self {
            QueryLevel::Current => "0",
            QueryLevel::Child => "1",
            QueryLevel::GrandChild => "2",
        }
    }
}

/// The parameters of a division query.
#[derive(Debug)]
pub struct DivisionQueryParams {
    year: Option<i32>,
    code: Option<String>,
    max_level: QueryLevel,
}

/// What a `DivisionQueryParams` value holds.
pub struct DivisionQueryParamsView {
    /// The edition year, or `None` for the latest edition.
    pub year: Option<i32>,
    /// The code of the division asked for.
    pub code: Option<Seq<char>>,
    /// How deep below that division the answer goes.
    pub max_level: QueryLevel,
}

impl View for DivisionQueryParams {
    type V = DivisionQueryParamsView;

    closed spec fn view(&self) -> DivisionQueryParamsView {
        DivisionQueryParamsView {
            year: self.year,
            code: self.code.deep_view(),
            max_level: self.max_level,
        }
    }
}

impl Clone for DivisionQueryParams {
    fn clone(&self) -> (copy: Self)
        ensures
            copy@ == self@,
    {
        DivisionQueryParams {
            year: self.year,
            code: clone_text(&self.code),
            max_level: self.max_level,
        }
    }
}

impl Default for DivisionQueryParams {
    fn default() -> (params: Self)
        ensures
            params@ == (DivisionQueryParamsView {
                year: None,
                code: None,
                max_level: QueryLevel::Current,
            }),
    {
        DivisionQueryParams { year: None, code: None, max_level: QueryLevel::Current }
    }
}

/// The query string of a division query, as pairs of parameter name and
/// value. The year and the code are left out where they are not set; the
/// depth is always sent.
pub open spec fn spec_division_pairs(params: DivisionQueryParamsView) -> Seq<
    (Seq<char>, Seq<char>),
> {
    (match params.year {
        Some(year) => seq![("year"@, signed_decimal(year as int))],
        None => Seq::empty(),
    }) + (match params.code {
        Some(code) => seq![("code"@, code)],
        None => Seq::empty(),
    }) + seq![("maxLevel"@, params.max_level.spec_label())]
}

impl DivisionQueryParams {
    /// A query for the division `code` in the edition of `year`.
    pub fn new(year: i32, code: String, max_level: QueryLevel) -> (params: Self)
        ensures
            params@ == (DivisionQueryParamsView { year: Some(year), code: Some(code@), max_level }),
    {
        DivisionQueryParams { year: Some(year), code: Some(code), max_level }
    }

    /// A query for the division `code` in the latest edition.
    pub fn latest(code: &str, max_level: QueryLevel) -> (params: Self)
        ensures
            params@ == (DivisionQueryParamsView { year: None, code: Some(code@), max_level }),
    {
        DivisionQueryParams { year: None, code: Some(code.to_owned()), max_level }
    }

    /// The edition year, if one was set.
    pub fn year(&self) -> (year: Option<i32>)
        ensures
            year == self@.year,
    {
        self.year
    }

    /// The code of the division asked for, if one was set.
    pub fn code(&self) -> (code: Option<&str>)
        ensures
            code.deep_view() == self@.code,
    {
        match &self.code {
            Some(code) => Some(code.as_str()),
            None => None,
        }
    }

    /// How deep below the division the answer goes.
    pub fn max_level(&self) -> (level: QueryLevel)
        ensures
            level == self@.max_level,
    {
        self.max_level
    }

    /// The parameters as they go into the query string of the request.
    pub fn query_pairs(&self) -> (pairs: Vec<(String, String)>)
        ensures
            pairs.deep_view() == spec_division_pairs(self@),
    {
        let mut pairs: Vec<(String, String)> = Vec::new();
        let ghost mut expected: Seq<(Seq<char>, Seq<char>)> = Seq::empty();
        assert(pairs.deep_view() =~= expected);
        if let Some(year) = self.year {
            let value = signed_decimal_string(year as i64);
            pairs.push(("year".to_owned(), value));
        }
        proof {
            expected = expected + (match self@.year {
                Some(year) => seq![("year"@, signed_decimal(year as int))],
                None => Seq::empty(),
            });
            assert(pairs.deep_view() =~= expected);
        }
        if let Some(code) = &self.code {
            pairs.push(("code".to_owned(), code.clone()));
        }
        proof {
            expected = expected + (match self@.code {
                Some(code) => seq![("code"@, code)],
                None => Seq::empty(),
            });
            assert(pairs.deep_view() =~= expected);
        }
        pairs.push(("maxLevel".to_owned(), self.max_level.label().to_owned()));
        proof {
            expected = expected + seq![("maxLevel"@, self@.max_level.spec_label())];
            assert(pairs.deep_view() =~= expected);
        }
        pairs
    }
}

/// A division with the divisions below it.
#[derive(Debug, PartialEq, Eq)]
pub struct DivisonQueryResult {
    /// The code of the division.
    pub code: String,
    /// The standard name of the division.
    pub name: String,
    /// The level of the division, counted from the province.
    pub level: i32,
    /// The kind of unit that the division is, in words.
    pub kind: String,
    /// The divisions directly below, as far as the query went down.
    pub children: Vec<DivisonQueryResult>,
}

/// The body of the answer to a division query.
#[derive(Debug, PartialEq, Eq)]
pub struct DivisionQueryResponse {
    /// The division asked for.
    pub data: DivisonQueryResult,
    /// A message of the service.
    pub message: Option<String>,
    /// The status code of the service.
    pub status: i32,
    /// The number of divisions in the answer.
    pub total: usize,
    /// A tag of the service.
    pub tag: Option<String>,
}

impl DivisionQueryResponse {
    /// The division tree that the answer carries.
    pub fn into_division(self) -> (division: DivisonQueryResult)
        ensures
            division == self.data,
    {
        self.data
    }
}

/// The kind of unit of a county.
pub const COUNTY_KIND: &'static str = "县";

/// The kind of unit of a city at county level.
pub const COUNTY_CITY_KIND: &'static str = "县级市";

/// The first six bytes of a code, as a text: `None` where the code is
/// shorter, or where its first six bytes end inside a character.
pub open spec fn spec_code_prefix(code: Seq<char>) -> Option<Seq<char>> {
    let bytes = encode_utf8(code);
    if bytes.len() >= 6 && is_char_boundary(bytes, 6) {
        Some(decode_utf8(bytes.subrange(0, 6)))
    } else {
        None
    }
}

/// Of a code of ASCII characters the prefix is its first six characters,
/// where it has as many.
pub proof fn lemma_code_prefix_ascii(code: Seq<char>)
    requires
        is_ascii_chars(code),
    ensures
        spec_code_prefix(code) == if code.len() >= 6 {
            Some(code.take(6))
        } else {
            None
        },
{
    broadcast use vstd::utf8::group_utf8_lib;

    let bytes = encode_utf8(code);
    assert(bytes =~= Seq::new(code.len(), |i: int| code[i] as u8));
    if code.len() >= 6 {
        if code.len() > 6 {
            assert(bytes[6] == code[6] as u8);
            assert(!vstd::utf8::is_continuation_byte(bytes[6])) by {
                let b = bytes[6];
                assert(b < 128);
                assert(b < 128 ==> !(b & 0xC0 == 0x80)) by (bit_vector);
            }
        }
        assert(is_char_boundary(bytes, 6));
        assert(is_ascii_chars(code.take(6)));
        assert(bytes.subrange(0, 6) =~= encode_utf8(code.take(6)));
    }
}

/// The six-byte prefix of a division code, which names its county.
pub fn get_code_prefix(code: &str) -> (prefix: Option<String>)
    ensures
        prefix.deep_view() == spec_code_prefix(code@),
{
    broadcast use vstd::utf8::group_utf8_lib;

    if code.as_bytes().len() >= 6 && code.is_char_boundary(6) {
        let (head, _) = code.split_at(6);
        Some(head.to_owned())
    } else {
        None
    }
}

/// Which of the divisions below a city are listed.
#[derive(Debug, Clone, Copy, PartialEq, Eq, Structural)]
pub enum CountyRule {
    /// Every division.
    Every,
    /// The counties.
    Counties,
    /// The counties and the cities at county level.
    CountiesAndCities,
}

impl CountyRule {
    /// Whether a division of the given kind is listed.
    pub open spec fn spec_accepts(self, kind: Seq<char>) -> bool {
        match self {
            CountyRule::Every => true,
            CountyRule::Counties => kind == COUNTY_KIND@,
            CountyRule::CountiesAndCities => kind == COUNTY_KIND@ || kind == COUNTY_CITY_KIND@,
        }
    }

    /// Whether a division of the given kind is listed.
    pub fn accepts(&self, kind: &str) -> (listed: bool)
        ensures
            listed == self.spec_accepts(kind@),
    {
        match self {
            CountyRule::Every => true,
            CountyRule::Counties => text_eq(kind, COUNTY_KIND),
            CountyRule::CountiesAndCities => text_eq(kind, COUNTY_KIND) || text_eq(
                kind,
                COUNTY_CITY_KIND,
            ),
        }
    }
}

/// The entry that stands for a division code in a list: the code itself,
/// or, where codes are shortened, its six-byte prefix if it has one.
pub open spec fn listed_code(code: Seq<char>, shorten: bool) -> Seq<Seq<char>> {
    if shorten {
        match spec_code_prefix(code) {
            Some(prefix) => seq![prefix],
            None => Seq::empty(),
        }
    } else {
        seq![code]
    }
}

/// The codes of the divisions among `children` that `rule` lists, in their
/// order.
pub open spec fn child_codes(
    children: Seq<DivisonQueryResult>,
    rule: CountyRule,
    shorten: bool,
) -> Seq<Seq<char>>
    decreases children.len(),
{
    if children.len() == 0 {
        Seq::empty()
    } else {
        child_codes(children.drop_last(), rule, shorten) + (if rule.spec_accepts(
            children.last().kind@,
        ) {
            listed_code(children.last().code@, shorten)
        } else {
            Seq::empty()
        })
    }
}

/// The codes that one city contributes: its own where it has no divisions
/// below it, and else those of the divisions below it that `rule` lists.
pub open spec fn city_codes(city: DivisonQueryResult, rule: CountyRule, shorten: bool) -> Seq<
    Seq<char>,
> {
    if city.children@.len() == 0 {
        listed_code(city.code@, shorten)
    } else {
        child_codes(city.children@, rule, shorten)
    }
}

/// The codes that the cities of a province contribute, city after city.
pub open spec fn division_codes(
    cities: Seq<DivisonQueryResult>,
    rule: CountyRule,
    shorten: bool,
) -> Seq<Seq<char>>
    decreases cities.len(),
{
    if cities.len() == 0 {
        Seq::empty()
    } else {
        division_codes(cities.drop_last(), rule, shorten) + city_codes(cities.last(), rule, shorten)
    }
}

fn push_listed(codes: &mut Vec<String>, code: &str, shorten: bool)
    ensures
        final(codes).deep_view() == old(codes).deep_view() + listed_code(code@, shorten),
{
    let ghost before = codes.deep_view();
    if shorten {
        match get_code_prefix(code) {
            Some(prefix) => {
                codes.push(prefix);
            },
            None => {},
        }
    } else {
        codes.push(code.to_owned());
    }
    assert(codes.deep_view() =~= before + listed_code(code@, shorten));
}

/// Lists the codes below a province: for each city its own code where it
/// has no divisions below it, and else the codes of the divisions below it
/// that `rule` lists. With `shorten` each code is cut to its six-byte
/// prefix, and a code without one is left out.
pub fn collect_codes(province: &DivisonQueryResult, rule: CountyRule, shorten: bool) -> (codes:
    Vec<String>)
    ensures
        codes.deep_view() == division_codes(province.children@, rule, shorten),
{
    let cities = &province.children;
    let mut codes: Vec<String> = Vec::new();
    let mut i: usize = 0;
    assert(codes.deep_view() =~= division_codes(cities@.take(0), rule, shorten));
    while i < cities.len()
        invariant
            i <= cities.len(),
            codes.deep_view() == division_codes(cities@.take(i as int), rule, shorten),
        decreases cities.len() - i,
    {
        let city = &cities[i];
        let ghost done = codes.deep_view();
        if city.children.len() == 0 {
            push_listed(&mut codes, city.code.as_str(), shorten);
        } else {
            let mut j: usize = 0;
            assert(codes.deep_view() =~= done + child_codes(
                city.children@.take(0),
                rule,
                shorten,
            ));
            while j < city.children.len()
                invariant
                    j <= city.children.len(),
                    codes.deep_view() == done + child_codes(
                        city.children@.take(j as int),
                        rule,
                        shorten,
                    ),
                decreases city.children.len() - j,
            {
                let child = &city.children[j];
                let ghost seen = city.children@.take(j as int);
                if rule.accepts(child.kind.as_str()) {
                    push_listed(&mut codes, child.code.as_str(), shorten);
                }
                proof {
                    let upto = city.children@.take(j + 1);
                    assert(upto.drop_last() =~= seen);
                    assert(upto.last() == *child);
                    assert(codes.deep_view() =~= done + child_codes(upto, rule, shorten));
                }
                j = j + 1;
            }
            assert(city.children@.take(city.children@.len() as int) =~= city.children@);
        }
        proof {
            let upto = cities@.take(i + 1);
            assert(upto.drop_last() =~= cities@.take(i as int));
            assert(upto.last() == *city);
            assert(codes.deep_view() =~= division_codes(upto, rule, shorten));
        }
        i = i + 1;
    }
    assert(cities@.take(cities@.len() as int) =~= cities@);
    codes
}

/// The codes of the divisions at county level below a province: for each
/// city every division below it, or the city itself where it has none.
pub fn county_division(province: &DivisonQueryResult) -> (codes: Vec<String>)
    ensures
        codes.deep_view() == division_codes(province.children@, CountyRule::Every, false),
{
    collect_codes(province, CountyRule::Every, false)
}

/// The codes of the counties below a province: for each city the counties
/// below it, or the city itself where it has no divisions below it.
pub fn filter_county_division(province: &DivisonQueryResult) -> (codes: Vec<String>)
    ensures
        codes.deep_view() == division_codes(province.children@, CountyRule::Counties, false),
{
    collect_codes(province, CountyRule::Counties, false)
}

/// The six-byte codes of the counties and county-level cities below a
/// province, as they are written to the county code list, one per line: for
/// each city those of the counties and county-level cities below it, or its
/// own where it has no divisions below it.
pub fn counties(province: &DivisonQueryResult) -> (codes: Vec<String>)
    ensures
        codes.deep_view() == division_codes(
            province.children@,
            CountyRule::CountiesAndCities,
            true,
        ),
{
    collect_codes(province, CountyRule::CountiesAndCities, true)
}

/// Reads a county code list: one code per line, in the order in which the
/// counties are to be harvested. Nothing is checked or left out: an empty
/// line stands for an empty code.
pub fn county_codes_from_text(text: &str) -> (codes: Vec<String>)
    ensures
        codes.deep_view() == spec_lines(text@),
{
    collect_lines(text)
}

/// The text of a county code list: each code followed by a line feed.
pub open spec fn spec_county_list(codes: Seq<Seq<char>>) -> Seq<char>
    decreases codes.len(),
{
    if codes.len() == 0 {
        Seq::empty()
    } else {
        codes[0] + seq!['\n'] + spec_county_list(codes.skip(1))
    }
}

/// Writes a county code list: one code per line.
pub fn county_list_text(codes: &Vec<String>) -> (text: String)
    ensures
        text@ == spec_county_list(codes.deep_view()),
{
    let ghost all = codes.deep_view();
    let mut text = String::new();
    let mut i: usize = 0;
    assert(all.skip(0) =~= all);
    assert(text@ + spec_county_list(all.skip(0)) =~= spec_county_list(all));
    while i < codes.len()
        invariant
            i <= codes.len(),
            all == codes.deep_view(),
            text@ + spec_county_list(all.skip(i as int)) == spec_county_list(all),
        decreases codes.len() - i,
    {
        let ghost before = text@;
        text.append(codes[i].as_str());
        text.append("\n");
        proof {
            reveal_strlit("\n");
            assert("\n"@ =~= seq!['\n']);
            assert(all.skip(i as int)[0] == codes[i as int]@);
            assert(all.skip(i as int).skip(1) =~= all.skip(i + 1));
            assert(text@ + spec_county_list(all.skip(i + 1)) =~= before + spec_county_list(
                all.skip(i as int),
            ));
        }
        i = i + 1;
    }
    assert(text@ + spec_county_list(all.skip(i as int)) =~= text@);
    text
}

/// Whether a code can stand on a line of its own: it holds no line feed and
/// does not end in a carriage return.
pub open spec fn fits_on_a_line(code: Seq<char>) -> bool {
    !code.contains('\n') && !(code.len() > 0 && code.last() == '\r')
}

/// A line without line feed that is followed by one is read as one line,
/// and the reading of what follows starts afresh.
proof fn lemma_lines_after_line(line: Seq<char>, rest: Seq<char>, current: Seq<char>)
    requires
        !line.contains('\n'),
    ensures
        lines_after(line + seq!['\n'] + rest, current) == seq![
            strip_carriage_return(current + line),
        ] + lines_after(rest, Seq::empty()),
    decreases line.len(),
{
    let text = line + seq!['\n'] + rest;
    if line.len() == 0 {
        assert(text[0] == '\n');
        assert(text.skip(1) =~= rest);
        assert(current + line =~= current);
    } else {
        assert(text[0] == line[0]);
        assert(line.contains(line[0]));
        assert(text.skip(1) =~= line.skip(1) + seq!['\n'] + rest);
        assert forall|c: char| line.skip(1).contains(c) implies line.contains(c) by {
            let k = choose|k: int| 0 <= k < line.skip(1).len() && line.skip(1)[k] == c;
            assert(line[k + 1] == c);
        }
        lemma_lines_after_line(line.skip(1), rest, current.push(line[0]));
        assert(current.push(line[0]) + line.skip(1) =~= current + line);
    }
}

/// A county code list that is written and read again holds the codes it
/// was written from, if each of them fits on a line.
pub proof fn lemma_county_list_round_trip(codes: Seq<Seq<char>>)
    requires
        forall|i: int| 0 <= i < codes.len() ==> fits_on_a_line(#[trigger] codes[i]),
    ensures
        spec_lines(spec_county_list(codes)) == codes,
    decreases codes.len(),
{
    if codes.len() > 0 {
        let rest = codes.skip(1);
        assert forall|i: int| 0 <= i < rest.len() implies fits_on_a_line(#[trigger] rest[i]) by {
            assert(rest[i] == codes[i + 1]);
        }
        lemma_county_list_round_trip(rest);
        lemma_lines_after_line(codes[0], spec_county_list(rest), Seq::empty());
        assert(Seq::<char>::empty() + codes[0] =~= codes[0]);
        assert(fits_on_a_line(codes[0]));
        assert(seq![codes[0]] + rest =~= codes);
    } else {
        assert(spec_lines(spec_county_list(codes)) =~= codes);
    }
}

} // verus!
