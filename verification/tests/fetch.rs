use fds::fund::fetch::{SearchResp, SearchRespBaseInfo, SearchRespData};
use fds::fund::{App, Fund};

fn fund(code: &str, name: &str, gap: &str) -> Fund {
    Fund {
        name: name.to_string(),
        code: code.to_string(),
        manager: String::new(),
        v_yesterday: "1.0000".to_string(),
        v_today: "1.0100".to_string(),
        v_gap: gap.to_string(),
        v_calc_time: "2024-01-08 15:00".to_string(),
    }
}

fn hit(code: &str, name: &str, manager: Option<&str>) -> SearchRespData {
    SearchRespData {
        code: code.to_string(),
        name: name.to_string(),
        base_info: manager.map(|m| SearchRespBaseInfo { manager: m.to_string() }),
    }
}

#[test]
fn detail_url_carries_code_and_time() {
    let app = App::new();
    assert_eq!(
        app.gen_code_detail_url("000001", 1700000000000),
        Some("http://fundgz.1234567.com.cn/js/000001.js?rt=1700000000000".to_string())
    );
    assert_eq!(
        app.gen_code_detail_url("161725", 0),
        Some("http://fundgz.1234567.com.cn/js/161725.js?rt=0".to_string())
    );
}

#[test]
fn search_url_encodes_the_keyword() {
    let app = App::new();
    assert_eq!(
        app.gen_search_url("白酒", 123),
        Some("http://fundsuggest.eastmoney.com/FundSearch/api/FundSearchAPI.ashx?_=123&m=1&key=%E7%99%BD%E9%85%92".to_string())
    );
    assert_eq!(
        app.gen_search_url("a b&c", 9),
        Some("http://fundsuggest.eastmoney.com/FundSearch/api/FundSearchAPI.ashx?_=9&m=1&key=a+b%26c".to_string())
    );
}

#[test]
fn to_fund_appends_percent_to_the_change() {
    let app = App::new();
    let f = app.to_fund(fund("000001", "A", "-0.66"));
    assert_eq!(f.v_gap, "-0.66%");
    assert_eq!(f.code, "000001");
    assert_eq!(f.v_today, "1.0100");
    let g = app.to_fund(fund("000002", "B", ""));
    assert_eq!(g.v_gap, "%");
}

#[test]
fn search_keeps_hits_and_uses_their_managers() {
    let app = App::new();
    let resp = SearchResp {
        datas: vec![
            hit("000001", "A", Some("Zhang")),
            hit("000002", "B", None),
            hit("000003", "C", Some("Li")),
        ],
    };
    let details = vec![Some(fund("000001", "A full", "0.5")), None, Some(fund("000003", "C full", "-1.2"))];
    let res = app.search_results(&resp, &details);
    assert_eq!(res.len(), 3);
    assert_eq!(res[0].code, "000001");
    assert_eq!(res[0].name, "A full");
    assert_eq!(res[0].manager, "Zhang");
    assert_eq!(res[0].v_gap, "0.5");
    assert_eq!(res[1].code, "000002");
    assert_eq!(res[1].name, "B");
    assert_eq!(res[1].manager, "");
    assert_eq!(res[1].v_gap, "");
    assert_eq!(res[1].v_today, "");
    assert_eq!(res[1].v_yesterday, "");
    assert_eq!(res[1].v_calc_time, "");
    assert_eq!(res[2].name, "C full");
    assert_eq!(res[2].manager, "Li");
    assert_eq!(res[2].v_gap, "-1.2");
}

#[test]
fn later_valuation_for_a_code_wins() {
    let app = App::new();
    let resp = SearchResp { datas: vec![hit("000001", "A", Some("M"))] };
    let details = vec![Some(fund("000001", "first", "1")), Some(fund("000001", "second", "2")), None];
    let res = app.search_results(&resp, &details);
    assert_eq!(res.len(), 1);
    assert_eq!(res[0].name, "second");
    assert_eq!(res[0].v_gap, "2");
    assert_eq!(res[0].manager, "M");
}

#[test]
fn valuations_are_matched_by_code_not_position() {
    let app = App::new();
    let resp = SearchResp { datas: vec![hit("000002", "B", None), hit("000001", "A", None), hit("000001", "A", Some("X"))] };
    let details = vec![Some(fund("000001", "A full", "3")), Some(fund("000009", "other", "4"))];
    let res = app.search_results(&resp, &details);
    assert_eq!(res.len(), 3);
    assert_eq!(res[0].name, "B");
    assert_eq!(res[0].v_gap, "");
    assert_eq!(res[1].name, "A full");
    assert_eq!(res[1].manager, "");
    assert_eq!(res[2].name, "A full");
    assert_eq!(res[2].manager, "X");
}

#[test]
fn empty_search_gives_nothing() {
    let app = App::new();
    let res = app.search_results(&SearchResp { datas: vec![] }, &vec![Some(fund("1", "x", "1"))]);
    assert!(res.is_empty());
}

#[test]
fn fund_line_is_tab_separated() {
    let mut f = fund("000001", "华夏成长", "-0.66%");
    f.manager = "Zhang".to_string();
    assert_eq!(f.display_line(), "000001\t华夏成长\t-0.66%\t2024-01-08 15:00\tZhang");
    let c = f.clone();
    assert_eq!(c.display_line(), f.display_line());
}
