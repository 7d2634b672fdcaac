//! The table of valuations that the command line prints.
use vstd::prelude::*;

use crate::fund::model::{Fund, FundView};

verus! {

/// How a row of the table is drawn.
#[derive(PartialEq, Eq, Structural, Clone, Copy)]
pub enum RowStyle {
    /// The header: centred.
    Header,
    /// A fund whose estimate falls today: green.
    Falling,
    /// A fund whose estimate rises (or holds) today: red.
    Rising,
}

/// The table style specification of a row style.
pub open spec fn spec_style(s: RowStyle) -> Seq<char> {
    match s {
        RowStyle::Header => "c"@,
        RowStyle::Falling => "Fgc"@,
        RowStyle::Rising => "Frc"@,
    }
}

impl RowStyle {
    /// The style specification that the table printer takes for this style.
    pub fn style_spec(&self) -> (s: &'static str)
        ensures
            s@ == spec_style(*self),
    {
        match self {
            RowStyle::Header => "c",
            RowStyle::Falling => "Fgc",
            RowStyle::Rising => "Frc",
        }
    }
}

/// One row of the table: its cells, left to right, and its style.
pub struct TableRow {
    pub cells: Vec<String>,
    pub style: RowStyle,
}

/// A row as plain text values.
pub struct RowView {
    pub cells: Seq<Seq<char>>,
    pub style: RowStyle,
}

impl View for TableRow {
    type V = RowView;

    open spec fn view(&self) -> RowView {
        RowView { cells: self.cells@.map_values(|c: String| c@), style: self.style }
    }
}

/// The rows of a table as plain values.
pub open spec fn rows_view(rows: Seq<TableRow>) -> Seq<RowView> {
    rows.map_values(|r: TableRow| r@)
}

/// The header row.
pub open spec fn header_row() -> RowView {
    RowView {
        cells: seq!["基金代码"@, "基金名称"@, "估值"@, "估值时间"@, "基金经理"@],
        style: RowStyle::Header,
    }
}

/// The row of one fund: code, name, change, estimate time and manager, drawn
/// green when the change is negative and red otherwise.
pub open spec fn fund_row(f: FundView) -> RowView {
    RowView {
        cells: seq![f.code, f.name, f.v_gap, f.v_calc_time, f.manager],
        style: if f.v_gap.len() > 0 && f.v_gap[0] == '-' {
            RowStyle::Falling
        } else {
            RowStyle::Rising
        },
    }
}

/// The rows of the funds that have an estimate, in order; funds without one
/// (an empty change) are left out.
pub open spec fn fund_rows(fs: Seq<FundView>) -> Seq<RowView>
    decreases fs.len(),
{
    if fs.len() == 0 {
        Seq::empty()
    } else if fs.last().v_gap.len() > 0 {
        fund_rows(fs.drop_last()).push(fund_row(fs.last()))
    } else {
        fund_rows(fs.drop_last())
    }
}

/// The whole table: nothing when no fund has an estimate, else the header
/// followed by the rows of the funds.
pub open spec fn spec_layout(fs: Seq<FundView>) -> Seq<RowView> {
    if fund_rows(fs).len() == 0 {
        Seq::empty()
    } else {
        seq![header_row()] + fund_rows(fs)
    }
}

/// The funds to show.
pub struct Blueprint {
    funds: Vec<Fund>,
}

impl View for Blueprint {
    type V = Seq<FundView>;

    closed spec fn view(&self) -> Seq<FundView> {
        self.funds@.map_values(|f: Fund| f@)
    }
}

/// The table holds a row exactly when some fund has an estimate.
pub proof fn lemma_rows_empty_iff(fs: Seq<FundView>)
    ensures
        fund_rows(fs).len() == 0 <==> forall|i: int| 0 <= i < fs.len() ==> #[trigger] fs[i].v_gap.len()
            == 0,
    decreases fs.len(),
{
    if fs.len() > 0 {
        lemma_rows_empty_iff(fs.drop_last());
        assert forall|i: int| 0 <= i < fs.len() - 1 implies #[trigger] fs.drop_last()[i] == fs[i] by {}
        if fs.last().v_gap.len() == 0 {
            if fund_rows(fs).len() == 0 {
                assert forall|i: int| 0 <= i < fs.len() implies #[trigger] fs[i].v_gap.len() == 0 by {
                    if i < fs.len() - 1 {
                        assert(fs.drop_last()[i] == fs[i]);
                    }
                }
            } else {
                let i = choose|i: int| 0 <= i < fs.drop_last().len() && #[trigger] fs.drop_last()[i].v_gap.len() != 0;
                assert(fs[i] == fs.drop_last()[i]);
            }
        }
    }
}

/// The header stands in the table exactly when some fund has an estimate.
pub proof fn lemma_header_iff_estimate(fs: Seq<FundView>)
    ensures
        spec_layout(fs).len() > 0 <==> exists|i: int| 0 <= i < fs.len() && #[trigger] fs[i].v_gap.len() > 0,
        spec_layout(fs).len() > 0 ==> spec_layout(fs)[0] == header_row(),
{
    lemma_rows_empty_iff(fs);
}

proof fn lemma_rows_filter(fs: Seq<FundView>)
    ensures
        fund_rows(fs) == fs.filter(|f: FundView| f.v_gap.len() > 0).map_values(
            |f: FundView| fund_row(f),
        ),
    decreases fs.len(),
{
    reveal(Seq::filter);
    if fs.len() > 0 {
        lemma_rows_filter(fs.drop_last());
        assert(fund_rows(fs) =~= fs.filter(|f: FundView| f.v_gap.len() > 0).map_values(
            |f: FundView| fund_row(f),
        ));
    }
}

/// The table rows after the header are exactly the funds that have an
/// estimate (a non-empty change), each once and in their order: the k-th row
/// shows the k-th such fund's code, name, change, estimate time and manager,
/// green when its change starts with `-`, red otherwise.
pub proof fn lemma_rows_are_funds_with_estimates(fs: Seq<FundView>)
    ensures
        ({
            let est = fs.filter(|f: FundView| f.v_gap.len() > 0);
            &&& fund_rows(fs).len() == est.len()
            &&& forall|k: int|
                0 <= k < est.len() ==> #[trigger] fund_rows(fs)[k] == (RowView {
                    cells: seq![est[k].code, est[k].name, est[k].v_gap, est[k].v_calc_time, est[k].manager],
                    style: if est[k].v_gap[0] == '-' {
                        RowStyle::Falling
                    } else {
                        RowStyle::Rising
                    },
                })
            &&& forall|k: int| 0 <= k < est.len() ==> #[trigger] est[k].v_gap.len() > 0
        }),
{
    lemma_rows_filter(fs);
    let est = fs.filter(|f: FundView| f.v_gap.len() > 0);
    assert forall|k: int| 0 <= k < est.len() implies #[trigger] est[k].v_gap.len() > 0 by {
        fs.lemma_filter_pred(|f: FundView| f.v_gap.len() > 0, k);
    }
}

impl Blueprint {
    pub fn new(funds: Vec<Fund>) -> (b: Blueprint)
        ensures
            b@ == funds@.map_values(|f: Fund| f@),
    {
        Blueprint { funds }
    }

    fn row_of(f: &Fund) -> (r: TableRow)
        requires
            f@.v_gap.len() > 0,
        ensures
            r@ == fund_row(f@),
    {
        let style = if f.v_gap.as_str().get_char(0) == '-' {
            RowStyle::Falling
        } else {
            RowStyle::Rising
        };
        let cells = vec![
            f.code.clone(),
            f.name.clone(),
            f.v_gap.clone(),
            f.v_calc_time.clone(),
            f.manager.clone(),
        ];
        let r = TableRow { cells, style };
        assert(r@.cells =~= fund_row(f@).cells);
        r
    }

    fn header() -> (r: TableRow)
        ensures
            r@ == header_row(),
    {
        let cells = vec![
            String::from_str("基金代码"),
            String::from_str("基金名称"),
            String::from_str("估值"),
            String::from_str("估值时间"),
            String::from_str("基金经理"),
        ];
        let r = TableRow { cells, style: RowStyle::Header };
        assert(r@.cells =~= header_row().cells);
        r
    }

    /// The rows to draw, header first; empty when no fund has an estimate
    /// (then nothing is printed).
    pub fn layout(&self) -> (rows: Vec<TableRow>)
        ensures
            rows_view(rows@) == spec_layout(self@),
            ({
                let est = self@.filter(|f: FundView| f.v_gap.len() > 0);
                &&& rows@.len() == if est.len() == 0 {
                    0
                } else {
                    est.len() + 1
                }
                &&& est.len() > 0 ==> rows@[0]@ == header_row()
                &&& forall|k: int|
                    0 <= k < est.len() ==> (#[trigger] rows@[k + 1])@.cells == seq![
                        est[k].code,
                        est[k].name,
                        est[k].v_gap,
                        est[k].v_calc_time,
                        est[k].manager,
                    ]
            }),
    {
        let mut rows: Vec<TableRow> = Vec::new();
        let n = self.funds.len();
        let ghost fs = self@;
        for i in 0..n
            invariant
                n == self.funds@.len(),
                fs == self@,
                fs == self.funds@.map_values(|f: Fund| f@),
                rows_view(rows@) == fund_rows(fs.take(i as int)),
        {
            let f = &self.funds[i];
            assert(fs.take(i + 1).drop_last() =~= fs.take(i as int));
            assert(fs.take(i + 1).last() == f@);
            if !f.v_gap.as_str().is_empty() {
                let r = Self::row_of(f);
                let ghost before = rows@;
                let ghost rv = r@;
                rows.push(r);
                assert(rows_view(rows@) =~= rows_view(before).push(rv));
            }
        }
        assert(fs.take(n as int) =~= fs);
        if rows.len() > 0 {
            rows.insert(0, Self::header());
            assert(rows_view(rows@) =~= seq![header_row()] + fund_rows(fs));
        }
        proof {
            lemma_rows_are_funds_with_estimates(fs);
            let est = fs.filter(|f: FundView| f.v_gap.len() > 0);
            assert(rows_view(rows@).len() == rows@.len());
            assert forall|k: int| 0 <= k < est.len() implies (#[trigger] rows@[k + 1])@.cells
                == seq![est[k].code, est[k].name, est[k].v_gap, est[k].v_calc_time, est[k].manager] by {
                assert(rows_view(rows@)[k + 1] == rows@[k + 1]@);
                assert(fund_rows(fs)[k] == spec_layout(fs)[k + 1]);
            }
            if est.len() > 0 {
                assert(rows_view(rows@)[0] == rows@[0]@);
            }
        }
        rows
    }
}

} // verus!
