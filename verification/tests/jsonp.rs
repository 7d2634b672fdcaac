use fds::fund::jsonp::extract_payload;
use fds::fund::App;

fn payload(text: &str) -> Option<String> {
    extract_payload(text)
}

#[test]
fn service_reply_gives_its_json() {
    let reply = "jsonpgz({\"fundcode\":\"000001\",\"name\":\"华夏成长混合\",\"jzrq\":\"2024-01-05\",\"dwjz\":\"1.0350\",\"gsz\":\"1.0282\",\"gszzl\":\"-0.66\",\"gztime\":\"2024-01-08 15:00\"});";
    assert_eq!(
        payload(reply),
        Some("{\"fundcode\":\"000001\",\"name\":\"华夏成长混合\",\"jzrq\":\"2024-01-05\",\"dwjz\":\"1.0350\",\"gsz\":\"1.0282\",\"gszzl\":\"-0.66\",\"gztime\":\"2024-01-08 15:00\"}".to_string())
    );
}

#[test]
fn wrapped_payload_comes_back() {
    for p in ["x", "{}", "a)b", "jsonpgz(inner)", "价格(1)"] {
        let text = format!("jsonpgz({});", p);
        assert_eq!(payload(&text), Some(p.to_string()));
        let bare = format!("jsonpgz({})", p);
        assert_eq!(payload(&bare), Some(p.to_string()));
    }
}

#[test]
fn empty_envelope_is_no_match() {
    assert_eq!(payload("jsonpgz();"), None);
    assert_eq!(payload("jsonpgz()"), None);
    assert_eq!(payload("jsonpgz())"), Some(")".to_string()));
}

#[test]
fn no_envelope_is_no_match() {
    assert_eq!(payload(""), None);
    assert_eq!(payload("jsonpgz("), None);
    assert_eq!(payload("{\"fundcode\":\"000001\"}"), None);
    assert_eq!(payload("JSONPGZ(abc)"), None);
}

#[test]
fn envelope_does_not_cross_a_line_break() {
    assert_eq!(payload("jsonpgz(ab\n)"), None);
    assert_eq!(payload("jsonpgz(a)b\n)"), Some("a".to_string()));
    assert_eq!(payload("jsonpgz(a\n)jsonpgz(b)"), Some("b".to_string()));
}

#[test]
fn leftmost_envelope_and_last_paren_win() {
    assert_eq!(payload("xx jsonpgz(a) jsonpgz(b)"), Some("a) jsonpgz(b".to_string()));
    assert_eq!(payload("jsonpgz(jsonpgz(a))"), Some("jsonpgz(a)".to_string()));
}

#[test]
fn detail_json_is_the_payload() {
    let app = App::new();
    assert_eq!(app.detail_json("jsonpgz({\"a\":1});"), Some("{\"a\":1}".to_string()));
    assert_eq!(app.detail_json("not found"), None);
}

/// The payload as the regex crate captures it with the defining pattern.
fn regex_payload(text: &str) -> Option<String> {
    let re = regex::Regex::new(r"jsonpgz\((?P<data>.+)\)").unwrap();
    re.captures(text).map(|c| c.name("data").unwrap().as_str().to_string())
}

#[test]
fn agrees_with_the_pattern_on_many_texts() {
    let pieces = ["jsonpgz(", ")", "a", "\n", "(", "jsonpgz", "é", ";", "z("];
    let mut texts: Vec<String> = vec![String::new()];
    for _ in 0..4 {
        let mut next = Vec::new();
        for t in &texts {
            for p in pieces.iter() {
                next.push(format!("{}{}", t, p));
            }
        }
        texts.extend(next);
    }
    for t in &texts {
        assert_eq!(payload(t), regex_payload(t), "text {:?}", t);
    }
}
