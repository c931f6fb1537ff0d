//! Place-name search: request parameters, their query string form, and the
//! records that a search returns.

use vstd::prelude::*;
use vstd::utf8::{decode_utf8, encode_utf8, is_ascii_chars, is_char_boundary};
use crate::text::{
    clone_text, decimal, decimal_string, signed_decimal, signed_decimal_string,
};

verus! {

/// How the registry matches the name in a search.
#[derive(Debug, Clone, Copy, PartialEq, Eq, Structural)]
pub enum SearchType {
    /// The name must equal the search text.
    Exact,
    /// The name must contain the search text.
    Fuzzy,
}

impl Default for SearchType {
    fn default() -> (t: Self)
        ensures
            t == SearchType::Exact,
    {
        SearchType::Exact
    }
}

impl SearchType {
    /// The word the registry expects for this match mode.
    pub open spec fn spec_label(self) -> Seq<char> {
        match self {
            SearchType::Exact => "精确"@,
            SearchType::Fuzzy => "模糊"@,
        }
    }

    /// The word the registry expects for this match mode.
    pub fn label(&self) -> (word: &'static str)
        ensures
            word@ == self.spec_label(),
    {
        match self {
            SearchType::Exact => "精确",
            SearchType::Fuzzy => "模糊",
        }
    }
}

/// The parameters of one search request.
#[derive(Debug)]
pub struct SearchParams {
    st_name: String,
    place_type_code: Option<String>,
    year: Option<i32>,
    search_type: Option<SearchType>,
    code: Option<String>,
    page: Option<usize>,
    size: Option<usize>,
}

/// What a `SearchParams` value holds.
pub struct SearchParamsView {
    pub st_name: Seq<char>,
    pub place_type_code: Option<Seq<char>>,
    pub year: Option<i32>,
    pub search_type: Option<SearchType>,
    pub code: Option<Seq<char>>,
    pub page: Option<usize>,
    pub size: Option<usize>,
}

impl View for SearchParams {
    type V = SearchParamsView;

    closed spec fn view(&self) -> SearchParamsView {
        SearchParamsView {
            st_name: self.st_name@,
            place_type_code: self.place_type_code.deep_view(),
            year: self.year,
            search_type: self.search_type,
            code: self.code.deep_view(),
            page: self.page,
            size: self.size,
        }
    }
}

impl Clone for SearchParams {
    fn clone(&self) -> (copy: Self)
        ensures
            copy@ == self@,
    {
        SearchParams {
            st_name: self.st_name.clone(),
            place_type_code: clone_text(&self.place_type_code),
            year: self.year,
            search_type: self.search_type,
            code: clone_text(&self.code),
            page: self.page,
            size: self.size,
        }
    }
}

/// The short form of a division code given as UTF-8 bytes. A code of more
/// than six bytes that begins with "41" is cut to its first two bytes where
/// bytes three and four are "00", and to its first four bytes otherwise. Any
/// other code, and one that cannot be cut after its fourth byte, stays as it
/// is.
pub open spec fn simplified_bytes(code: Seq<u8>) -> Seq<u8> {
    if code.len() > 6 && code[0] == 0x34 && code[1] == 0x31 && is_char_boundary(code, 4) {
        if code[2] == 0x30 && code[3] == 0x30 {
            code.subrange(0, 2)
        } else {
            code.subrange(0, 4)
        }
    } else {
        code
    }
}

/// The short form of a division code.
pub open spec fn spec_simplified_code(code: Seq<char>) -> Seq<char> {
    decode_utf8(simplified_bytes(encode_utf8(code)))
}

/// On a code of ASCII characters the short form can be read off the
/// characters: a code of more than six characters that begins with "41"
/// keeps its first two characters where the next two are "00" and its first
/// four otherwise, and every other code is unchanged.
pub proof fn lemma_simplified_code_ascii(code: Seq<char>)
    requires
        is_ascii_chars(code),
    ensures
        spec_simplified_code(code) == if code.len() > 6 && code[0] == '4' && code[1] == '1' {
            if code[2] == '0' && code[3] == '0' {
                code.take(2)
            } else {
                code.take(4)
            }
        } else {
            code
        },
{
    broadcast use vstd::utf8::group_utf8_lib;

    let bytes = encode_utf8(code);
    assert(bytes =~= Seq::new(code.len(), |i: int| code[i] as u8));
    if code.len() > 6 {
        assert(bytes[0] == code[0] as u8);
        assert(bytes[1] == code[1] as u8);
        assert(bytes[2] == code[2] as u8);
        assert(bytes[3] == code[3] as u8);
        assert(bytes[4] == code[4] as u8);
        assert(!vstd::utf8::is_continuation_byte(bytes[4])) by {
            let b = bytes[4];
            assert(b < 128);
            assert(b < 128 ==> !(b & 0xC0 == 0x80)) by (bit_vector);
        }
        assert(is_char_boundary(bytes, 4));
        assert(is_ascii_chars(code.take(2)));
        assert(is_ascii_chars(code.take(4)));
        assert(bytes.subrange(0, 2) =~= encode_utf8(code.take(2)));
        assert(bytes.subrange(0, 4) =~= encode_utf8(code.take(4)));
    }
}

/// Shortens a division code to the form the registry accepts in a search.
pub fn simplify_code(code: &str) -> (short: String)
    ensures
        short@ == spec_simplified_code(code@),
{
    broadcast use vstd::utf8::group_utf8_lib;

    let bytes = code.as_bytes();
    if bytes.len() > 6 && bytes[0] == 0x34 && bytes[1] == 0x31 && code.is_char_boundary(4) {
        if bytes[2] == 0x30 && bytes[3] == 0x30 {
            assert(!vstd::utf8::is_continuation_byte(bytes@[2])) by {
                assert(!(0x30u8 & 0xC0 == 0x80)) by (bit_vector);
            }
            let (head, _) = code.split_at(2);
            head.to_owned()
        } else {
            let (head, _) = code.split_at(4);
            head.to_owned()
        }
    } else {
        code.to_owned()
    }
}

impl SearchParams {
    /// The name to search for.
    pub fn st_name(&self) -> (name: &str)
        ensures
            name@ == self@.st_name,
    {
        self.st_name.as_str()
    }

    /// The place-type code to restrict the search to, if any.
    pub fn place_type_code(&self) -> (code: Option<&str>)
        ensures
            code.deep_view() == self@.place_type_code,
    {
        match &self.place_type_code {
            Some(code) => Some(code.as_str()),
            None => None,
        }
    }

    /// The edition year to search in, if any.
    pub fn year(&self) -> (year: Option<i32>)
        ensures
            year == self@.year,
    {
        self.year
    }

    /// The match mode, if any.
    pub fn search_type(&self) -> (mode: Option<&SearchType>)
        ensures
            mode == match self@.search_type {
                Some(t) => Some(&t),
                None => None,
            },
    {
        self.search_type.as_ref()
    }

    /// The division code to search within, if any, as it was given.
    pub fn code(&self) -> (code: Option<&str>)
        ensures
            code.deep_view() == self@.code,
    {
        match &self.code {
            Some(code) => Some(code.as_str()),
            None => None,
        }
    }

    /// The division code in the short form that the registry accepts.
    pub fn simplified_code(&self) -> (short: Option<String>)
        ensures
            short.deep_view() == match self@.code {
                Some(code) => Some(spec_simplified_code(code)),
                None => None,
            },
    {
        match &self.code {
            Some(code) => Some(simplify_code(code.as_str())),
            None => None,
        }
    }

    /// The page to fetch, if any.
    pub fn page(&self) -> (page: Option<usize>)
        ensures
            page == self@.page,
    {
        self.page
    }

    /// The number of records per page, if any.
    pub fn size(&self) -> (size: Option<usize>)
        ensures
            size == self@.size,
    {
        self.size
    }
}

/// The query string of a search, as pairs of parameter name and value in the
/// order in which they are sent. The name is always sent. The division code
/// goes out in its short form. A parameter that was not set is left out.
pub open spec fn spec_query_pairs(params: SearchParamsView) -> Seq<(Seq<char>, Seq<char>)> {
    seq![("stName"@, params.st_name)] + (match params.code {
        Some(code) => seq![("code"@, spec_simplified_code(code))],
        None => Seq::empty(),
    }) + (match params.place_type_code {
        Some(code) => seq![("PlaceTypeCode"@, code)],
        None => Seq::empty(),
    }) + (match params.year {
        Some(year) => seq![("year"@, signed_decimal(year as int))],
        None => Seq::empty(),
    }) + (match params.search_type {
        Some(mode) => seq![("searchType"@, mode.spec_label())],
        None => Seq::empty(),
    }) + (match params.page {
        Some(page) => seq![("page"@, decimal(page as nat))],
        None => Seq::empty(),
    }) + (match params.size {
        Some(size) => seq![("size"@, decimal(size as nat))],
        None => Seq::empty(),
    })
}

fn push_pair(pairs: &mut Vec<(String, String)>, key: &str, value: String)
    ensures
        final(pairs).deep_view() == old(pairs).deep_view().push((key@, value@)),
{
    let ghost before = pairs.deep_view();
    pairs.push((key.to_owned(), value));
    assert(pairs.deep_view() =~= before.push((key@, value@)));
}

impl SearchParams {
    /// The parameters as they go into the query string of the request.
    pub fn query_pairs(&self) -> (pairs: Vec<(String, String)>)
        ensures
            pairs.deep_view() == spec_query_pairs(self@),
    {
        let mut pairs: Vec<(String, String)> = Vec::new();
        assert(pairs.deep_view() =~= Seq::empty());
        push_pair(&mut pairs, "stName", self.st_name.clone());
        let ghost mut expected = seq![("stName"@, self@.st_name)];
        assert(pairs.deep_view() =~= expected);
        if let Some(code) = &self.code {
            push_pair(&mut pairs, "code", simplify_code(code.as_str()));
        }
        proof {
            expected = expected + (match self@.code {
                Some(code) => seq![("code"@, spec_simplified_code(code))],
                None => Seq::empty(),
            });
            assert(pairs.deep_view() =~= expected);
        }
        if let Some(code) = &self.place_type_code {
            push_pair(&mut pairs, "PlaceTypeCode", code.clone());
        }
        proof {
            expected = expected + (match self@.place_type_code {
                Some(code) => seq![("PlaceTypeCode"@, code)],
                None => Seq::empty(),
            });
            assert(pairs.deep_view() =~= expected);
        }
        if let Some(year) = self.year {
            push_pair(&mut pairs, "year", signed_decimal_string(year as i64));
        }
        proof {
            expected = expected + (match self@.year {
                Some(year) => seq![("year"@, signed_decimal(year as int))],
                None => Seq::empty(),
            });
            assert(pairs.deep_view() =~= expected);
        }
        if let Some(mode) = self.search_type {
            push_pair(&mut pairs, "searchType", mode.label().to_owned());
        }
        proof {
            expected = expected + (match self@.search_type {
                Some(mode) => seq![("searchType"@, mode.spec_label())],
                None => Seq::empty(),
            });
            assert(pairs.deep_view() =~= expected);
        }
        if let Some(page) = self.page {
            push_pair(&mut pairs, "page", decimal_string(page as u64));
        }
        proof {
            expected = expected + (match self@.page {
                Some(page) => seq![("page"@, decimal(page as nat))],
                None => Seq::empty(),
            });
            assert(pairs.deep_view() =~= expected);
        }
        if let Some(size) = self.size {
            push_pair(&mut pairs, "size", decimal_string(size as u64));
        }
        proof {
            expected = expected + (match self@.size {
                Some(size) => seq![("size"@, decimal(size as nat))],
                None => Seq::empty(),
            });
            assert(pairs.deep_view() =~= expected);
        }
        pairs
    }
}

/// Collects the parameters of a search one by one.
#[derive(Debug)]
pub struct SearchParamsBuilder {
    st_name: Option<String>,
    place_type_code: Option<String>,
    year: Option<i32>,
    search_type: Option<SearchType>,
    code: Option<String>,
    page: Option<usize>,
    size: Option<usize>,
}

/// What a `SearchParamsBuilder` has been given so far.
pub struct SearchParamsBuilderView {
    pub st_name: Option<Seq<char>>,
    pub place_type_code: Option<Seq<char>>,
    pub year: Option<i32>,
    pub search_type: Option<SearchType>,
    pub code: Option<Seq<char>>,
    pub page: Option<usize>,
    pub size: Option<usize>,
}

impl View for SearchParamsBuilder {
    type V = SearchParamsBuilderView;

    closed spec fn view(&self) -> SearchParamsBuilderView {
        SearchParamsBuilderView {
            st_name: self.st_name.deep_view(),
            place_type_code: self.place_type_code.deep_view(),
            year: self.year,
            search_type: self.search_type,
            code: self.code.deep_view(),
            page: self.page,
            size: self.size,
        }
    }
}

/// Why a `SearchParamsBuilder` could not build its parameters.
#[derive(Debug, Clone, Copy, PartialEq, Eq, Structural)]
pub enum SearchParamsBuilderError {
    /// No name to search for was given.
    MissingName,
}

impl Default for SearchParamsBuilder {
    fn default() -> (builder: Self)
        ensures
            builder@ == (SearchParamsBuilderView {
                st_name: None,
                place_type_code: None,
                year: None,
                search_type: None,
                code: None,
                page: None,
                size: None,
            }),
    {
        SearchParamsBuilder {
            st_name: None,
            place_type_code: None,
            year: None,
            search_type: None,
            code: None,
            page: None,
            size: None,
        }
    }
}

impl SearchParamsBuilder {
    /// Sets the name to search for. An empty name matches every place.
    pub fn st_name(self, name: &str) -> (builder: Self)
        ensures
            builder@ == (SearchParamsBuilderView { st_name: Some(name@), ..self@ }),
    {
        SearchParamsBuilder { st_name: Some(name.to_owned()), ..self }
    }

    /// Restricts the search to one place-type code.
    pub fn place_type_code(self, code: &str) -> (builder: Self)
        ensures
            builder@ == (SearchParamsBuilderView { place_type_code: Some(code@), ..self@ }),
    {
        SearchParamsBuilder { place_type_code: Some(code.to_owned()), ..self }
    }

    /// Sets the edition year.
    pub fn year(self, year: i32) -> (builder: Self)
        ensures
            builder@ == (SearchParamsBuilderView { year: Some(year), ..self@ }),
    {
        SearchParamsBuilder { year: Some(year), ..self }
    }

    /// Sets the match mode.
    pub fn search_type(self, mode: SearchType) -> (builder: Self)
        ensures
            builder@ == (SearchParamsBuilderView { search_type: Some(mode), ..self@ }),
    {
        SearchParamsBuilder { search_type: Some(mode), ..self }
    }

    /// Restricts the search to one administrative division.
    pub fn code(self, code: &str) -> (builder: Self)
        ensures
            builder@ == (SearchParamsBuilderView { code: Some(code@), ..self@ }),
    {
        SearchParamsBuilder { code: Some(code.to_owned()), ..self }
    }

    /// Sets the page to fetch.
    pub fn page(self, page: usize) -> (builder: Self)
        ensures
            builder@ == (SearchParamsBuilderView { page: Some(page), ..self@ }),
    {
        SearchParamsBuilder { page: Some(page), ..self }
    }

    /// Sets the number of records per page.
    pub fn size(self, size: usize) -> (builder: Self)
        ensures
            builder@ == (SearchParamsBuilderView { size: Some(size), ..self@ }),
    {
        SearchParamsBuilder { size: Some(size), ..self }
    }

    /// Builds the parameters. Only the name is required.
    pub fn build(self) -> (built: Result<SearchParams, SearchParamsBuilderError>)
        ensures
            match built {
                Ok(params) => self@.st_name is Some && params@ == (SearchParamsView {
                    st_name: self@.st_name->0,
                    place_type_code: self@.place_type_code,
                    year: self@.year,
                    search_type: self@.search_type,
                    code: self@.code,
                    page: self@.page,
                    size: self@.size,
                }),
                Err(error) => self@.st_name is None && error
                    == SearchParamsBuilderError::MissingName,
            },
    {
        match self.st_name {
            Some(st_name) => Ok(
                SearchParams {
                    st_name,
                    place_type_code: self.place_type_code,
                    year: self.year,
                    search_type: self.search_type,
                    code: self.code,
                    page: self.page,
                    size: self.size,
                },
            ),
            None => Err(SearchParamsBuilderError::MissingName),
        }
    }
}

/// One place in the result of a search.
#[derive(Debug, PartialEq, Eq)]
pub struct Record {
    /// The registry's identifier of the place.
    pub id: String,
    /// The place code.
    pub place_code: String,
    /// The standard name of the place.
    pub standard_name: String,
    /// The standard name in Roman letters.
    pub roman_alphabet_spelling: String,
    /// The name in a minority script, where the place has one.
    pub ethnic_minorities_writing: Option<String>,
    /// The place type in words.
    pub place_type: String,
    /// The place-type code.
    pub place_type_code: Option<String>,
    /// The name of the province the place lies in.
    pub province_name: Option<String>,
    /// The name of the city the place lies in.
    pub city_name: Option<String>,
    /// The name of the county the place lies in.
    pub area_name: Option<String>,
    /// The code of the county.
    pub area: Option<String>,
    /// The code of the city.
    pub city: Option<String>,
    /// The code of the province.
    pub province: Option<String>,
}

/// What a `Record` holds.
pub struct RecordView {
    pub id: Seq<char>,
    pub place_code: Seq<char>,
    pub standard_name: Seq<char>,
    pub roman_alphabet_spelling: Seq<char>,
    pub ethnic_minorities_writing: Option<Seq<char>>,
    pub place_type: Seq<char>,
    pub place_type_code: Option<Seq<char>>,
    pub province_name: Option<Seq<char>>,
    pub city_name: Option<Seq<char>>,
    pub area_name: Option<Seq<char>>,
    pub area: Option<Seq<char>>,
    pub city: Option<Seq<char>>,
    pub province: Option<Seq<char>>,
}

impl View for Record {
    type V = RecordView;

    open spec fn view(&self) -> RecordView {
        RecordView {
            id: self.id@,
            place_code: self.place_code@,
            standard_name: self.standard_name@,
            roman_alphabet_spelling: self.roman_alphabet_spelling@,
            ethnic_minorities_writing: self.ethnic_minorities_writing.deep_view(),
            place_type: self.place_type@,
            place_type_code: self.place_type_code.deep_view(),
            province_name: self.province_name.deep_view(),
            city_name: self.city_name.deep_view(),
            area_name: self.area_name.deep_view(),
            area: self.area.deep_view(),
            city: self.city.deep_view(),
            province: self.province.deep_view(),
        }
    }
}

impl DeepView for Record {
    type V = RecordView;

    open spec fn deep_view(&self) -> RecordView {
        self@
    }
}

impl Clone for Record {
    fn clone(&self) -> (copy: Self)
        ensures
            copy@ == self@,
    {
        Record {
            id: self.id.clone(),
            place_code: self.place_code.clone(),
            standard_name: self.standard_name.clone(),
            roman_alphabet_spelling: self.roman_alphabet_spelling.clone(),
            ethnic_minorities_writing: clone_text(&self.ethnic_minorities_writing),
            place_type: self.place_type.clone(),
            place_type_code: clone_text(&self.place_type_code),
            province_name: clone_text(&self.province_name),
            city_name: clone_text(&self.city_name),
            area_name: clone_text(&self.area_name),
            area: clone_text(&self.area),
            city: clone_text(&self.city),
            province: clone_text(&self.province),
        }
    }
}

/// The body of a search reply.
#[derive(Debug, PartialEq, Eq)]
pub struct SearchResponse {
    /// The records of the requested page.
    pub records: Vec<Record>,
    /// The number of records that match in all.
    pub total: usize,
}

impl SearchResponse {
    /// The records that a search reply stands for. A reply without a success
    /// status, or one whose body could not be read, stands for no records; it
    /// is not an error.
    pub fn records_or_empty(success: bool, body: Option<SearchResponse>) -> (records: Vec<Record>)
        ensures
            records.deep_view() == match body {
                Some(response) if success => response.records.deep_view(),
                _ => Seq::empty(),
            },
    {
        match body {
            Some(response) if success => response.records,
            _ => {
                let records: Vec<Record> = Vec::new();
                assert(records.deep_view() =~= Seq::empty());
                records
            },
        }
    }
}

} // verus!
