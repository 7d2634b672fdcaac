//! The client side of the two services: the addresses it asks, and what it
//! makes of the answers.
use vstd::prelude::*;

use crate::fund::jsonp::{extract_payload, spec_payload};
use crate::fund::model::{Fund, FundView};
use crate::text::{decimal_string, spec_decimal};

verus! {

/// What `url::Url::parse_with_params` gives for `input` and the query pairs
/// `params`: the serialization of the parsed URL with the pairs appended to
/// its query, or `None` when `input` is not an absolute URL.
pub uninterp spec fn url_with_params(input: Seq<char>, params: Seq<(Seq<char>, Seq<char>)>) -> Option<
    Seq<char>,
>;

/// Query pairs as plain text.
pub open spec fn pairs_view(params: Seq<(String, String)>) -> Seq<(Seq<char>, Seq<char>)> {
    params.map_values(|p: (String, String)| (p.0@, p.1@))
}

/// Calls `url::Url::parse_with_params(input, params)` and returns the
/// serialization of the URL (`String::from(url)`), or `None` where the crate
/// reports a parse error. The contract only ties the result to the name
/// `url_with_params`; what the crate computes (normalisation of the address,
/// form-urlencoding of the pairs) is not restated here.
#[verifier::external_body]
fn parse_with_params(input: &str, params: &Vec<(String, String)>) -> (r: Option<String>)
    ensures
        match r {
            Some(u) => url_with_params(input@, pairs_view(params@)) == Some(u@),
            None => url_with_params(input@, pairs_view(params@)) is None,
        },
{
    match url::Url::parse_with_params(input, params.iter()) {
        Ok(u) => Some(String::from(u)),
        Err(_) => None,
    }
}

/// The address of the search service.
pub open spec fn search_base() -> Seq<char> {
    "http://fundsuggest.eastmoney.com/FundSearch/api/FundSearchAPI.ashx"@
}

/// The address of the valuation of the fund with code `code`.
pub open spec fn detail_base(code: Seq<char>) -> Seq<char> {
    "http://fundgz.1234567.com.cn/js/"@ + code + ".js"@
}

/// The search address for `keyword` at time `now` (milliseconds since the
/// epoch, used to defeat caches).
pub open spec fn spec_search_url(keyword: Seq<char>, now: nat) -> Option<Seq<char>> {
    url_with_params(
        search_base(),
        seq![("_"@, spec_decimal(now)), ("m"@, "1"@), ("key"@, keyword)],
    )
}

/// The valuation address for the fund `code` at time `now`.
pub open spec fn spec_detail_url(code: Seq<char>, now: nat) -> Option<Seq<char>> {
    url_with_params(detail_base(code), seq![("rt"@, spec_decimal(now))])
}

/// The manager that a search hit names, empty when it names none.
pub open spec fn manager_of(d: SearchRespData) -> Seq<char> {
    match d.base_info {
        Some(b) => b.manager@,
        None => Seq::empty(),
    }
}

/// A fetched valuation that is for the fund `code`.
pub open spec fn is_for(o: Option<Fund>, code: Seq<char>) -> bool {
    o matches Some(f) && f.code@ == code
}

/// `k` is the last position of `details` that holds a valuation for `code`.
pub open spec fn last_for(details: Seq<Option<Fund>>, code: Seq<char>, k: int) -> bool {
    &&& 0 <= k < details.len()
    &&& is_for(details[k], code)
    &&& forall|j: int| k < j < details.len() ==> !#[trigger] is_for(details[j], code)
}

/// The valuation kept for `code`: later valuations for the same code replace
/// earlier ones, failed fetches are skipped.
pub open spec fn valuation_for(details: Seq<Option<Fund>>, code: Seq<char>) -> Option<FundView> {
    if exists|k: int| last_for(details, code, k) {
        let k = choose|k: int| last_for(details, code, k);
        Some(details[k]->0@)
    } else {
        None
    }
}

/// What a search hit becomes: its valuation with the manager that the hit
/// names, or, with no valuation, a fund of the hit's name, code and manager
/// with every valuation field empty.
pub open spec fn merged(d: SearchRespData, details: Seq<Option<Fund>>) -> FundView {
    match valuation_for(details, d.code@) {
        Some(f) => FundView { manager: manager_of(d), ..f },
        None => FundView {
            name: d.name@,
            code: d.code@,
            manager: manager_of(d),
            v_yesterday: Seq::empty(),
            v_today: Seq::empty(),
            v_gap: Seq::empty(),
            v_calc_time: Seq::empty(),
        },
    }
}

/// The manager part of a search hit.
pub struct SearchRespBaseInfo {
    pub manager: String,
}

/// One hit of the search service.
pub struct SearchRespData {
    pub code: String,
    pub name: String,
    pub base_info: Option<SearchRespBaseInfo>,
}

/// The answer of the search service.
pub struct SearchResp {
    pub datas: Vec<SearchRespData>,
}

/// The client of the search and valuation services.
pub struct App {}

/// At most one position is the last one for a code.
pub proof fn lemma_last_for_unique(details: Seq<Option<Fund>>, code: Seq<char>, k1: int, k2: int)
    requires
        last_for(details, code, k1),
        last_for(details, code, k2),
    ensures
        k1 == k2,
{
    if k1 < k2 {
        assert(is_for(details[k2], code));
    } else if k2 < k1 {
        assert(is_for(details[k1], code));
    }
}

/// The valuation kept for a code is the one at its last position.
pub proof fn lemma_valuation_at(details: Seq<Option<Fund>>, code: Seq<char>, k: int)
    requires
        last_for(details, code, k),
    ensures
        valuation_for(details, code) == Some(details[k]->0@),
{
    let k2 = choose|k2: int| last_for(details, code, k2);
    lemma_last_for_unique(details, code, k, k2);
}

/// A merged search hit keeps the code of the hit and carries exactly the
/// manager string that the hit names (empty when it names none), whether or
/// not a valuation was found for it.
pub proof fn lemma_merged_keeps_hit(d: SearchRespData, details: Seq<Option<Fund>>)
    ensures
        merged(d, details).code == d.code@,
        merged(d, details).manager == manager_of(d),
        d.base_info matches Some(b) ==> merged(d, details).manager == b.manager@,
        d.base_info is None ==> merged(d, details).manager.len() == 0,
{
    if exists|k: int| last_for(details, d.code@, k) {
        let k = choose|k: int| last_for(details, d.code@, k);
        assert(is_for(details[k], d.code@));
    }
}

/// The search address is the search service's address with exactly the
/// pairs `_` = the time in decimal, `m` = `1` and `key` = the whole keyword.
pub proof fn lemma_search_url_pairs(keyword: Seq<char>, now: nat)
    ensures
        spec_search_url(keyword, now) == url_with_params(
            "http://fundsuggest.eastmoney.com/FundSearch/api/FundSearchAPI.ashx"@,
            seq![("_"@, spec_decimal(now)), ("m"@, "1"@), ("key"@, keyword)],
        ),
{
}

/// The valuation address of a fund is
/// `http://fundgz.1234567.com.cn/js/<code>.js` with the single pair `rt` =
/// the time in decimal, for every code.
pub proof fn lemma_detail_url_pairs(code: Seq<char>, now: nat)
    ensures
        spec_detail_url(code, now) == url_with_params(
            "http://fundgz.1234567.com.cn/js/"@ + code + ".js"@,
            seq![("rt"@, spec_decimal(now))],
        ),
{
}

/// A hit with no valuation for its code comes out with its own name and empty
/// valuation fields; a hit with one comes out with that valuation's fields.
pub proof fn lemma_merged_valuation(d: SearchRespData, details: Seq<Option<Fund>>)
    ensures
        (forall|k: int| 0 <= k < details.len() ==> !#[trigger] is_for(details[k], d.code@)) ==> {
            &&& merged(d, details).name == d.name@
            &&& merged(d, details).v_gap.len() == 0
            &&& merged(d, details).v_today.len() == 0
            &&& merged(d, details).v_yesterday.len() == 0
            &&& merged(d, details).v_calc_time.len() == 0
        },
        forall|k: int| #[trigger] last_for(details, d.code@, k) ==> {
            &&& merged(d, details).name == details[k]->0.name@
            &&& merged(d, details).v_gap == details[k]->0.v_gap@
            &&& merged(d, details).v_today == details[k]->0.v_today@
            &&& merged(d, details).v_yesterday == details[k]->0.v_yesterday@
            &&& merged(d, details).v_calc_time == details[k]->0.v_calc_time@
        },
{
    assert forall|k: int| #[trigger] last_for(details, d.code@, k) implies merged(d, details).name
        == details[k]->0.name@ && merged(d, details).v_gap == details[k]->0.v_gap@ by {
        lemma_valuation_at(details, d.code@, k);
    }
    assert forall|k: int| #[trigger] last_for(details, d.code@, k) implies merged(d, details).v_today
        == details[k]->0.v_today@ && merged(d, details).v_yesterday == details[k]->0.v_yesterday@
        && merged(d, details).v_calc_time == details[k]->0.v_calc_time@ by {
        lemma_valuation_at(details, d.code@, k);
    }
    if forall|k: int| 0 <= k < details.len() ==> !#[trigger] is_for(details[k], d.code@) {
        if exists|k: int| last_for(details, d.code@, k) {
            let k = choose|k: int| last_for(details, d.code@, k);
            assert(is_for(details[k], d.code@));
        }
    }
}

impl App {
    pub fn new() -> (app: App)
        ensures
            app == (App {  }),
    {
        App {  }
    }

    /// The address that asks the search service for `keyword` at time `now`
    /// (milliseconds since the epoch).
    pub fn gen_search_url(&self, keyword: &str, now: u128) -> (r: Option<String>)
        ensures
            match r {
                Some(u) => spec_search_url(keyword@, now as nat) == Some(u@),
                None => spec_search_url(keyword@, now as nat) is None,
            },
            ({
                let expected = url_with_params(
                    "http://fundsuggest.eastmoney.com/FundSearch/api/FundSearchAPI.ashx"@,
                    seq![("_"@, spec_decimal(now as nat)), ("m"@, "1"@), ("key"@, keyword@)],
                );
                match r {
                    Some(u) => expected == Some(u@),
                    None => expected is None,
                }
            }),
    {
        let base = "http://fundsuggest.eastmoney.com/FundSearch/api/FundSearchAPI.ashx";
        let params = vec![
            (String::from_str("_"), decimal_string(now)),
            (String::from_str("m"), String::from_str("1")),
            (String::from_str("key"), String::from_str(keyword)),
        ];
        assert(pairs_view(params@) =~= seq![
            ("_"@, spec_decimal(now as nat)),
            ("m"@, "1"@),
            ("key"@, keyword@),
        ]);
        parse_with_params(base, &params)
    }

    /// The address that asks the valuation service for the fund `code` at
    /// time `now` (milliseconds since the epoch).
    pub fn gen_code_detail_url(&self, code: &str, now: u128) -> (r: Option<String>)
        ensures
            match r {
                Some(u) => spec_detail_url(code@, now as nat) == Some(u@),
                None => spec_detail_url(code@, now as nat) is None,
            },
            ({
                let expected = url_with_params(
                    "http://fundgz.1234567.com.cn/js/"@ + code@ + ".js"@,
                    seq![("rt"@, spec_decimal(now as nat))],
                );
                match r {
                    Some(u) => expected == Some(u@),
                    None => expected is None,
                }
            }),
    {
        let mut base = String::from_str("http://fundgz.1234567.com.cn/js/");
        base.append(code);
        base.append(".js");
        let params = vec![(String::from_str("rt"), decimal_string(now))];
        assert(pairs_view(params@) =~= seq![("rt"@, spec_decimal(now as nat))]);
        parse_with_params(base.as_str(), &params)
    }

    /// The JSON that a valuation reply carries: the payload of its JSONP
    /// envelope, `None` (invalid data) when the reply holds no envelope.
    pub fn detail_json(&self, text: &str) -> (r: Option<String>)
        ensures
            match r {
                Some(p) => spec_payload(text@) == Some(p@),
                None => spec_payload(text@) is None,
            },
    {
        extract_payload(text)
    }

    /// Completes a decoded valuation: the service writes the change without
    /// its unit, so a `%` is appended to it (`-1.2` becomes `-1.2%`).
    pub fn to_fund(&self, decoded: Fund) -> (f: Fund)
        ensures
            f@ == (FundView { v_gap: decoded@.v_gap + seq!['%'], ..decoded@ }),
    {
        let ghost before = decoded@;
        let mut f = decoded;
        proof {
            reveal_strlit("%");
        }
        f.v_gap.append("%");
        assert(f.v_gap@ =~= before.v_gap + seq!['%']);
        f
    }

    /// The position of the valuation kept for `code`, if any.
    fn find_valuation(details: &Vec<Option<Fund>>, code: &String) -> (r: Option<usize>)
        ensures
            match r {
                Some(k) => last_for(details@, code@, k as int),
                None => forall|k: int| !#[trigger] last_for(details@, code@, k),
            },
    {
        let mut j = details.len();
        while j > 0
            invariant
                j <= details@.len(),
                forall|i: int| j <= i < details@.len() ==> !#[trigger] is_for(details@[i], code@),
            decreases j,
        {
            j = j - 1;
            match &details[j] {
                Some(f) => {
                    if f.code == *code {
                        return Some(j);
                    }
                },
                None => {},
            }
        }
        proof {
            assert forall|k: int| !#[trigger] last_for(details@, code@, k) by {
                if last_for(details@, code@, k) {
                    assert(is_for(details@[k], code@));
                }
            }
        }
        None
    }

    /// Merges the hits of a search with the valuations fetched for them
    /// (`None` where a fetch failed): one fund per hit, in the order of the
    /// hits, each with the manager that its hit names; a hit whose valuation
    /// is missing keeps its name and code with empty valuation fields.
    pub fn search_results(&self, resp: &SearchResp, details: &Vec<Option<Fund>>) -> (res: Vec<Fund>)
        ensures
            res@.len() == resp.datas@.len(),
            forall|i: int|
                0 <= i < res@.len() ==> #[trigger] res@[i]@ == merged(resp.datas@[i], details@),
            forall|i: int| 0 <= i < res@.len() ==> (#[trigger] res@[i]).code@ == resp.datas@[i].code@,
            forall|i: int|
                0 <= i < res@.len() ==> match resp.datas@[i].base_info {
                    Some(b) => (#[trigger] res@[i]).manager@ == b.manager@,
                    None => res@[i].manager@.len() == 0,
                },
            forall|i: int, k: int|
                0 <= i < res@.len() && #[trigger] last_for(details@, resp.datas@[i].code@, k) ==> {
                    &&& res@[i].name@ == details@[k]->0.name@
                    &&& res@[i].v_yesterday@ == details@[k]->0.v_yesterday@
                    &&& res@[i].v_today@ == details@[k]->0.v_today@
                    &&& res@[i].v_gap@ == details@[k]->0.v_gap@
                    &&& res@[i].v_calc_time@ == details@[k]->0.v_calc_time@
                },
            forall|i: int|
                0 <= i < res@.len() && (forall|k: int|
                    0 <= k < details@.len() ==> !#[trigger] is_for(details@[k], resp.datas@[i].code@))
                    ==> {
                    &&& (#[trigger] res@[i]).name@ == resp.datas@[i].name@
                    &&& res@[i].v_yesterday@.len() == 0
                    &&& res@[i].v_today@.len() == 0
                    &&& res@[i].v_gap@.len() == 0
                    &&& res@[i].v_calc_time@.len() == 0
                },
    {
        let mut res: Vec<Fund> = Vec::new();
        let n = resp.datas.len();
        for i in 0..n
            invariant
                n == resp.datas@.len(),
                res@.len() == i,
                forall|k: int| 0 <= k < i ==> #[trigger] res@[k]@ == merged(resp.datas@[k], details@),
                forall|k: int| 0 <= k < i ==> (#[trigger] res@[k]).code@ == resp.datas@[k].code@,
                forall|k: int|
                    0 <= k < i ==> match resp.datas@[k].base_info {
                        Some(b) => (#[trigger] res@[k]).manager@ == b.manager@,
                        None => res@[k].manager@.len() == 0,
                    },
        {
            proof {
                lemma_merged_keeps_hit(resp.datas@[i as int], details@);
            }
            let data = &resp.datas[i];
            let manager = match &data.base_info {
                Some(b) => b.manager.clone(),
                None => String::new(),
            };
            match Self::find_valuation(details, &data.code) {
                Some(k) => {
                    let mut f = details[k].as_ref().unwrap().clone();
                    f.manager = manager;
                    proof {
                        lemma_valuation_at(details@, data.code@, k as int);
                    }
                    res.push(f);
                },
                None => {
                    res.push(
                        Fund {
                            name: data.name.clone(),
                            code: data.code.clone(),
                            manager,
                            v_yesterday: String::new(),
                            v_today: String::new(),
                            v_gap: String::new(),
                            v_calc_time: String::new(),
                        },
                    );
                },
            }
        }
        proof {
            assert forall|i: int|
                0 <= i < res@.len() && (forall|k: int|
                    0 <= k < details@.len() ==> !#[trigger] is_for(details@[k], resp.datas@[i].code@))
                implies {
                &&& (#[trigger] res@[i]).name@ == resp.datas@[i].name@
                &&& res@[i].v_yesterday@.len() == 0
                &&& res@[i].v_today@.len() == 0
                &&& res@[i].v_gap@.len() == 0
                &&& res@[i].v_calc_time@.len() == 0
            } by {
                lemma_merged_valuation(resp.datas@[i], details@);
                assert(res@[i]@ == merged(resp.datas@[i], details@));
            }
            assert forall|i: int, k: int|
                0 <= i < res@.len() && #[trigger] last_for(details@, resp.datas@[i].code@, k) implies {
                &&& res@[i].name@ == details@[k]->0.name@
                &&& res@[i].v_yesterday@ == details@[k]->0.v_yesterday@
                &&& res@[i].v_today@ == details@[k]->0.v_today@
                &&& res@[i].v_gap@ == details@[k]->0.v_gap@
                &&& res@[i].v_calc_time@ == details@[k]->0.v_calc_time@
            } by {
                lemma_valuation_at(details@, resp.datas@[i].code@, k);
                assert(res@[i]@ == merged(resp.datas@[i], details@));
            }
        }
        res
    }
}

} // verus!
