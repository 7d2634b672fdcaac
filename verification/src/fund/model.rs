//! What the valuation service says of one fund.
use vstd::prelude::*;

verus! {

/// One fund with its latest valuation. The valuation fields are kept as the
/// service writes them (decimal text); an empty field means "not known".
pub struct Fund {
    pub name: String,
    pub code: String,
    pub manager: String,
    /// Net value at the close of the previous trading day.
    pub v_yesterday: String,
    /// Estimated net value today.
    pub v_today: String,
    /// Estimated change today, e.g. `-1.2%`.
    pub v_gap: String,
    /// When the estimate was made.
    pub v_calc_time: String,
}

/// A fund as plain text values.
pub struct FundView {
    pub name: Seq<char>,
    pub code: Seq<char>,
    pub manager: Seq<char>,
    pub v_yesterday: Seq<char>,
    pub v_today: Seq<char>,
    pub v_gap: Seq<char>,
    pub v_calc_time: Seq<char>,
}

impl View for Fund {
    type V = FundView;

    open spec fn view(&self) -> FundView {
        FundView {
            name: self.name@,
            code: self.code@,
            manager: self.manager@,
            v_yesterday: self.v_yesterday@,
            v_today: self.v_today@,
            v_gap: self.v_gap@,
            v_calc_time: self.v_calc_time@,
        }
    }
}

impl Clone for Fund {
    fn clone(&self) -> (r: Fund)
        ensures
            r@ == self@,
    {
        Fund {
            name: self.name.clone(),
            code: self.code.clone(),
            manager: self.manager.clone(),
            v_yesterday: self.v_yesterday.clone(),
            v_today: self.v_today.clone(),
            v_gap: self.v_gap.clone(),
            v_calc_time: self.v_calc_time.clone(),
        }
    }
}

/// The one-line form of a fund: code, name, change, estimate time and
/// manager, separated by tabs.
pub open spec fn spec_display_line(f: FundView) -> Seq<char> {
    f.code + seq!['\t'] + f.name + seq!['\t'] + f.v_gap + seq!['\t'] + f.v_calc_time + seq!['\t']
        + f.manager
}

/// The line holds the five fields in order, each followed by a tab but the
/// last: the code, then the name, then the change (`v_gap`), then the estimate
/// time, then the manager, whatever the fields hold. Other fields never
/// appear in it.
pub proof fn lemma_display_fields(f: FundView)
    ensures
        ({
            let l = spec_display_line(f);
            let a = f.code.len() as int;
            let b = a + 1 + f.name.len();
            let c = b + 1 + f.v_gap.len();
            let d = c + 1 + f.v_calc_time.len();
            &&& l.len() == d + 1 + f.manager.len()
            &&& l.subrange(0, a) == f.code
            &&& l[a] == '\t'
            &&& l.subrange(a + 1, b) == f.name
            &&& l[b] == '\t'
            &&& l.subrange(b + 1, c) == f.v_gap
            &&& l[c] == '\t'
            &&& l.subrange(c + 1, d) == f.v_calc_time
            &&& l[d] == '\t'
            &&& l.subrange(d + 1, l.len() as int) == f.manager
        }),
{
    let l = spec_display_line(f);
    let a = f.code.len() as int;
    let b = a + 1 + f.name.len();
    let c = b + 1 + f.v_gap.len();
    let d = c + 1 + f.v_calc_time.len();
    assert(l.subrange(0, a) =~= f.code);
    assert(l.subrange(a + 1, b) =~= f.name);
    assert(l.subrange(b + 1, c) =~= f.v_gap);
    assert(l.subrange(c + 1, d) =~= f.v_calc_time);
    assert(l.subrange(d + 1, l.len() as int) =~= f.manager);
}

impl Fund {
    /// The line that the command line prints for this fund (its `Display`
    /// form).
    pub fn display_line(&self) -> (s: String)
        ensures
            s@ == spec_display_line(self@),
            s@ == self.code@ + seq!['\t'] + self.name@ + seq!['\t'] + self.v_gap@ + seq!['\t']
                + self.v_calc_time@ + seq!['\t'] + self.manager@,
    {
        let tab = "\t";
        proof {
            reveal_strlit("\t");
        }
        let mut s = self.code.clone();
        s.append(tab);
        s.append(self.name.as_str());
        s.append(tab);
        s.append(self.v_gap.as_str());
        s.append(tab);
        s.append(self.v_calc_time.as_str());
        s.append(tab);
        s.append(self.manager.as_str());
        s
    }
}

} // verus!
