//! The JSONP envelope in which the valuation service answers:
//! `jsonpgz(<json>);`.
//!
//! The payload is the text that the pattern `jsonpgz\((?P<data>.+)\)` captures
//! under leftmost-first matching: the envelope that opens first (and can be
//! closed at all) wins, and within it the greedy `.+` runs to the last `)`
//! before the end of the line.
use vstd::prelude::*;

verus! {

broadcast use vstd::string::group_string_axioms;

/// The eight characters that open an envelope: `jsonpgz(`.
pub open spec fn opener() -> Seq<char> {
    seq!['j', 's', 'o', 'n', 'p', 'g', 'z', '(']
}

/// An envelope opener starts at position `s` of `t`.
pub open spec fn opens_at(t: Seq<char>, s: int) -> bool {
    0 <= s && s + 8 <= t.len() && t.subrange(s, s + 8) == opener()
}

/// Position `e` holds a `)` that can close an envelope opened at `s`: at least
/// one character lies between the opener and it, and none of those is a line
/// break.
pub open spec fn closes_at(t: Seq<char>, s: int, e: int) -> bool {
    &&& s + 8 < e < t.len()
    &&& t[e] == ')'
    &&& forall|k: int| s + 8 <= k < e ==> t[k] != '\n'
}

/// An envelope opened at `s` and closed at `e`.
pub open spec fn envelope(t: Seq<char>, s: int, e: int) -> bool {
    opens_at(t, s) && closes_at(t, s, e)
}

/// Some envelope opens at `s`.
pub open spec fn envelope_at(t: Seq<char>, s: int) -> bool {
    opens_at(t, s) && exists|e: int| closes_at(t, s, e)
}

/// The envelope that the pattern matches: the leftmost one, closed by its last
/// possible `)`.
pub open spec fn chosen_envelope(t: Seq<char>, s: int, e: int) -> bool {
    &&& envelope(t, s, e)
    &&& forall|s2: int| s2 < s ==> !#[trigger] envelope_at(t, s2)
    &&& forall|e2: int| e < e2 ==> !#[trigger] closes_at(t, s, e2)
}

/// The payload of `t`: the text between the opener and the closing `)` of the
/// chosen envelope, or `None` when `t` holds no envelope.
pub open spec fn spec_payload(t: Seq<char>) -> Option<Seq<char>> {
    if exists|s: int, e: int| chosen_envelope(t, s, e) {
        let (s, e) = choose|s: int, e: int| chosen_envelope(t, s, e);
        Some(t.subrange(s + 8, e))
    } else {
        None
    }
}

/// Wraps a payload into an envelope, as the service does: `jsonpgz(p)`.
pub open spec fn wrap(p: Seq<char>) -> Seq<char> {
    opener() + p + seq![')']
}

/// At most one envelope is the chosen one.
pub proof fn lemma_chosen_unique(t: Seq<char>, s1: int, e1: int, s2: int, e2: int)
    requires
        chosen_envelope(t, s1, e1),
        chosen_envelope(t, s2, e2),
    ensures
        s1 == s2,
        e1 == e2,
{
    if s1 < s2 {
        assert(envelope_at(t, s1));
    } else if s2 < s1 {
        assert(envelope_at(t, s2));
    } else if e1 < e2 {
        assert(closes_at(t, s1, e2));
    } else if e2 < e1 {
        assert(closes_at(t, s2, e1));
    }
}

/// The payload is the text of the chosen envelope, whichever way it is picked.
pub proof fn lemma_payload_of_chosen(t: Seq<char>, s: int, e: int)
    requires
        chosen_envelope(t, s, e),
    ensures
        spec_payload(t) == Some(t.subrange(s + 8, e)),
{
    let (s2, e2) = choose|s2: int, e2: int| chosen_envelope(t, s2, e2);
    lemma_chosen_unique(t, s, e, s2, e2);
}

/// A payload is never empty, never spans a line break, and stands in the
/// text between an opener and a `)`.
pub proof fn lemma_payload_shape(t: Seq<char>)
    requires
        spec_payload(t) is Some,
    ensures
        ({
            let p = spec_payload(t)->0;
            &&& p.len() > 0
            &&& forall|i: int| 0 <= i < p.len() ==> p[i] != '\n'
            &&& exists|s: int|
                #![trigger opens_at(t, s)]
                opens_at(t, s) && t.subrange(s + 8, s + 8 + p.len()) == p && t[s + 8 + p.len()]
                    == ')'
        }),
{
    let (s, e) = choose|s: int, e: int| chosen_envelope(t, s, e);
    let p = t.subrange(s + 8, e);
    assert forall|i: int| 0 <= i < p.len() implies p[i] != '\n' by {
        assert(p[i] == t[s + 8 + i]);
    }
    assert(opens_at(t, s) && t.subrange(s + 8, s + 8 + p.len()) == p);
}

/// Unwrapping what was wrapped gives it back: for a payload of one or more
/// characters without a line break, followed by anything that holds no `)`,
/// the payload is recovered exactly.
pub proof fn lemma_unwrap_wrapped(p: Seq<char>, rest: Seq<char>)
    requires
        p.len() > 0,
        forall|i: int| 0 <= i < p.len() ==> p[i] != '\n',
        forall|i: int| 0 <= i < rest.len() ==> rest[i] != ')',
    ensures
        spec_payload(wrap(p) + rest) == Some(p),
{
    let t = wrap(p) + rest;
    let e: int = 8 + p.len() as int;
    assert(t.subrange(0, 8) =~= opener());
    assert(t[e] == ')');
    assert forall|k: int| 8 <= k < e implies t[k] != '\n' by {
        assert(t[k] == p[k - 8]);
    }
    assert(closes_at(t, 0, e));
    assert forall|e2: int| e < e2 implies !#[trigger] closes_at(t, 0, e2) by {
        if e2 < t.len() {
            assert(t[e2] == rest[e2 - e - 1]);
        }
    }
    assert(chosen_envelope(t, 0, e));
    lemma_payload_of_chosen(t, 0, e);
    assert(t.subrange(8, e) =~= p);
}

fn opens_at_exec(cs: &Vec<char>, s: usize) -> (b: bool)
    requires
        s + 8 <= cs.len(),
    ensures
        b == opens_at(cs@, s as int),
{
    let b = cs[s] == 'j' && cs[s + 1] == 's' && cs[s + 2] == 'o' && cs[s + 3] == 'n'
        && cs[s + 4] == 'p' && cs[s + 5] == 'g' && cs[s + 6] == 'z' && cs[s + 7] == '(';
    proof {
        let w = cs@.subrange(s as int, s + 8);
        if b {
            assert(w =~= opener());
        } else {
            if w == opener() {
                assert(w[0] == 'j' && w[1] == 's' && w[2] == 'o' && w[3] == 'n');
                assert(w[4] == 'p' && w[5] == 'g' && w[6] == 'z' && w[7] == '(');
            }
        }
    }
    b
}

/// The characters of `text`, in order.
fn chars_of(text: &str) -> (cs: Vec<char>)
    ensures
        cs@ == text@,
{
    let mut cs: Vec<char> = Vec::new();
    for c in it: text.chars()
        invariant
            cs@ == it.seq().take(it.index()),
    {
        cs.push(c);
    }
    cs
}

/// The last `)` that closes an envelope opened at `s`, if any.
fn last_close(cs: &Vec<char>, s: usize) -> (r: Option<usize>)
    requires
        opens_at(cs@, s as int),
    ensures
        match r {
            Some(e) => closes_at(cs@, s as int, e as int) && forall|e2: int|
                e < e2 ==> !#[trigger] closes_at(cs@, s as int, e2),
            None => forall|e2: int| !#[trigger] closes_at(cs@, s as int, e2),
        },
{
    let n = cs.len();
    let mut k = s + 8;
    let mut last: Option<usize> = None;
    while k < n && cs[k] != '\n'
        invariant
            s + 8 <= k <= n,
            n == cs@.len(),
            opens_at(cs@, s as int),
            forall|j: int| s + 8 <= j < k ==> cs@[j] != '\n',
            match last {
                Some(e) => closes_at(cs@, s as int, e as int) && e < k && forall|j: int|
                    e < j < k ==> cs@[j] != ')',
                None => forall|j: int| s + 8 < j < k ==> cs@[j] != ')',
            },
        decreases n - k,
    {
        if cs[k] == ')' && k > s + 8 {
            last = Some(k);
        }
        k = k + 1;
    }
    proof {
        assert forall|e2: int| (match last { Some(e) => e < e2, None => true })
            implies !#[trigger] closes_at(cs@, s as int, e2) by {
            if closes_at(cs@, s as int, e2) && e2 >= k {
                assert(cs@[k as int] != '\n');
            }
        }
    }
    last
}

/// Extracts the payload of a JSONP reply: the text that the pattern
/// `jsonpgz\((?P<data>.+)\)` captures as `data`, or `None` when it does not
/// match.
pub fn extract_payload(text: &str) -> (r: Option<String>)
    ensures
        match r {
            Some(p) => spec_payload(text@) == Some(p@),
            None => spec_payload(text@) is None,
        },
{
    let cs = chars_of(text);
    let n = cs.len();
    let mut s: usize = 0;
    while n > 8 && s < n - 8
        invariant
            cs@ == text@,
            n == cs@.len(),
            forall|s2: int| s2 < s ==> !#[trigger] envelope_at(cs@, s2),
        decreases n - s,
    {
        if opens_at_exec(&cs, s) {
            match last_close(&cs, s) {
                Some(e) => {
                    proof {
                        assert(chosen_envelope(cs@, s as int, e as int));
                        lemma_payload_of_chosen(cs@, s as int, e as int);
                    }
                    let p = text.substring_char(s + 8, e);
                    return Some(String::from_str(p));
                },
                None => {},
            }
        }
        s = s + 1;
    }
    proof {
        assert forall|s2: int| !#[trigger] envelope_at(cs@, s2) by {
            if s2 >= s && envelope_at(cs@, s2) {
                let e = choose|e: int| closes_at(cs@, s2, e);
            }
        }
        if exists|s2: int, e2: int| chosen_envelope(cs@, s2, e2) {
            let (s2, e2) = choose|s2: int, e2: int| chosen_envelope(cs@, s2, e2);
            assert(envelope_at(cs@, s2));
        }
    }
    None
}

} // verus!
