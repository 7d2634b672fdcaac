use fds::fund::Fund;
use fds::ui::{Blueprint, RowStyle};

fn fund(code: &str, gap: &str) -> Fund {
    Fund {
        name: format!("name {}", code),
        code: code.to_string(),
        manager: "M".to_string(),
        v_yesterday: String::new(),
        v_today: String::new(),
        v_gap: gap.to_string(),
        v_calc_time: "15:00".to_string(),
    }
}

#[test]
fn rows_follow_funds_with_estimates() {
    let b = Blueprint::new(vec![fund("1", "-0.5%"), fund("2", ""), fund("3", "0.7%")]);
    let rows = b.layout();
    assert_eq!(rows.len(), 3);
    assert!(rows[0].style == RowStyle::Header);
    assert_eq!(rows[0].cells, vec!["基金代码", "基金名称", "估值", "估值时间", "基金经理"]);
    assert!(rows[1].style == RowStyle::Falling);
    assert_eq!(rows[1].cells, vec!["1", "name 1", "-0.5%", "15:00", "M"]);
    assert!(rows[2].style == RowStyle::Rising);
    assert_eq!(rows[2].cells, vec!["3", "name 3", "0.7%", "15:00", "M"]);
}

#[test]
fn no_estimate_no_table() {
    assert!(Blueprint::new(vec![fund("1", ""), fund("2", "")]).layout().is_empty());
    assert!(Blueprint::new(vec![]).layout().is_empty());
}

#[test]
fn style_specs() {
    assert_eq!(RowStyle::Header.style_spec(), "c");
    assert_eq!(RowStyle::Falling.style_spec(), "Fgc");
    assert_eq!(RowStyle::Rising.style_spec(), "Frc");
}
