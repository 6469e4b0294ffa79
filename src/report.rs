//! The reservations report: the priced rows as a matrix, and the coverage
//! sub-reports around it.
use vstd::prelude::*;
use crate::cost::{CalculationModel, ReservationElement};
use crate::matrix::{
    aggregate, aggregates_view, cell, row_view, rows_view, strings_view, Matrix, MatrixFooter,
    MatrixHeader, MatrixOutput,
};
use crate::money::{format_money, usd_text};
use crate::text::{decimal_text, i64_text, signed_decimal_text, u128_text, u64_text};

verus! {

/// The text of an instant given in seconds since the Unix epoch, as
/// `YYYY-MM-DD hh:mm:ss UTC`; `None` outside the representable range.
pub uninterp spec fn utc_timestamp_text(secs: int) -> Option<Seq<char>>;

/// Relies on chrono's `DateTime::from_timestamp` (which gives `None` out of
/// range) and on the `Display` of `DateTime<Utc>`.
#[verifier::external_body]
fn utc_text(secs: i64) -> (r: Option<String>)
    ensures
        r is Some <==> utc_timestamp_text(secs as int) is Some,
        r matches Some(t) ==> t@ == utc_timestamp_text(secs as int).unwrap(),
{
    chrono::DateTime::from_timestamp(secs, 0).map(|d| d.to_string())
}

/// The column headings of the reservations matrix.
pub open spec fn reservation_headings() -> Seq<Option<Seq<char>>> {
    seq![
        Some("Type"@),
        Some("#"@),
        Some("AZ"@),
        Some("Expiry"@),
        Some("Days"@),
        Some("Term Yrs"@),
        Some("Model"@),
        Some("$ Res/Hr"@),
        Some("$ Res/Fixed"@),
        Some("$ Res/Year"@),
        Some("$ ODM/Hr"@),
        Some("$ ODM/Year"@),
        Some("$ Saving/Year"@),
    ]
}

/// The cells that show one priced reservation.
pub open spec fn reservation_cells(e: ReservationElement) -> Seq<Option<Seq<char>>> {
    seq![
        Some(e.name@),
        Some(decimal_text(e.qty as nat)),
        Some(e.az@),
        utc_timestamp_text(e.expiry as int),
        Some(signed_decimal_text(e.days_remaining as int)),
        Some(signed_decimal_text(e.term_years as int)),
        Some(e.res_model@),
        Some(usd_text(e.res_recurring as int)),
        Some(usd_text(e.res_fixed as int)),
        Some(usd_text(e.res_yearly as int)),
        Some(usd_text(e.odm_rate as int)),
        Some(usd_text(e.odm_yearly as int)),
        Some(usd_text(e.saving_yearly as int)),
    ]
}

/// The number of reserved instances over `elements`.
pub open spec fn total_qty(elements: Seq<ReservationElement>) -> nat
    decreases elements.len(),
{
    if elements.len() == 0 {
        0
    } else {
        total_qty(elements.drop_last()) + elements.last().qty as nat
    }
}

/// `m` is the matrix of the priced reservations of `model`: a heading row,
/// one row per reservation, and the count, yearly spend and yearly saving.
pub open spec fn is_reservations_matrix(m: Matrix, model: CalculationModel) -> bool {
    &&& m.header matches Some(h) && strings_view(h@) == seq!["Active Reservations"@]
    &&& m.rows matches Some(rows) && rows_view(rows@) == seq![reservation_headings()]
        + model.elements@.map_values(|e: ReservationElement| reservation_cells(e))
    &&& m.aggregate_rows matches Some(a) && aggregates_view(a@) == seq![
        ("Total Reservations"@, decimal_text(total_qty(model.elements@))),
        ("Total Yearly Spend"@, usd_text(model.total_actual_yearly as int)),
        ("Total Yearly Saving"@, usd_text(model.total_odm_yearly - model.total_actual_yearly)),
    ]
    &&& m.notes is None
    &&& m.first_rows_header
}

fn headings_row() -> (r: Vec<Option<String>>)
    ensures
        row_view(r@) == reservation_headings(),
{
    let mut row: Vec<Option<String>> = Vec::new();
    row.push(cell("Type"));
    row.push(cell("#"));
    row.push(cell("AZ"));
    row.push(cell("Expiry"));
    row.push(cell("Days"));
    row.push(cell("Term Yrs"));
    row.push(cell("Model"));
    row.push(cell("$ Res/Hr"));
    row.push(cell("$ Res/Fixed"));
    row.push(cell("$ Res/Year"));
    row.push(cell("$ ODM/Hr"));
    row.push(cell("$ ODM/Year"));
    row.push(cell("$ Saving/Year"));
    assert(row_view(row@) =~= reservation_headings());
    row
}

/// The cells of one priced reservation.
pub fn reservation_row(e: &ReservationElement) -> (r: Vec<Option<String>>)
    requires
        e.wf(),
    ensures
        row_view(r@) == reservation_cells(*e),
{
    let mut row: Vec<Option<String>> = Vec::new();
    row.push(Some(e.name.clone()));
    row.push(Some(u64_text(e.qty as u64)));
    row.push(Some(e.az.clone()));
    row.push(utc_text(e.expiry));
    row.push(Some(i64_text(e.days_remaining)));
    row.push(Some(i64_text(e.term_years)));
    row.push(Some(e.res_model.clone()));
    row.push(Some(format_money(e.res_recurring)));
    row.push(Some(format_money(e.res_fixed)));
    row.push(Some(format_money(e.res_yearly)));
    row.push(Some(format_money(e.odm_rate)));
    row.push(Some(format_money(e.odm_yearly)));
    row.push(Some(format_money(e.saving_yearly)));
    assert(row_view(row@) =~= reservation_cells(*e));
    row
}

/// The state of the reservations command between its steps.
pub struct ResCommand {
    /// The priced active reservations.
    pub model: Option<CalculationModel>,
    /// The priced reservations left unused by the running instances.
    pub unused_model: Option<CalculationModel>,
    pub uncovered_instances_matrix: Option<MatrixOutput>,
    pub covered_instances_matrix: Option<MatrixOutput>,
    /// Whether coverage sub-reports are part of the output.
    pub wide: bool,
}

/// `a` is `b` under another header.
pub open spec fn retitled(a: Matrix, b: Matrix, title: Seq<char>) -> bool {
    &&& a.header matches Some(h) && strings_view(h@) == seq![title]
    &&& a.rows == b.rows
    &&& a.aggregate_rows == b.aggregate_rows
    &&& a.notes == b.notes
    &&& a.first_rows_header == b.first_rows_header
}

impl ResCommand {
    pub fn new() -> (r: ResCommand)
        ensures
            r.model is None,
            r.unused_model is None,
            r.uncovered_instances_matrix is None,
            r.covered_instances_matrix is None,
            !r.wide,
    {
        ResCommand {
            model: None,
            unused_model: None,
            uncovered_instances_matrix: None,
            covered_instances_matrix: None,
            wide: false,
        }
    }

    /// The matrix of the priced active reservations.
    pub fn get_reservations_matrix(&self) -> (r: Matrix)
        requires
            self.model matches Some(m) && m.wf(),
        ensures
            is_reservations_matrix(r, self.model.unwrap()),
    {
        let model = match &self.model {
            Some(m) => m,
            None => {
                proof {
                    assert(false);
                }
                return Matrix {
                    header: None,
                    rows: None,
                    aggregate_rows: None,
                    notes: None,
                    first_rows_header: true,
                };
            },
        };
        let ghost cells = model.elements@.map_values(|e: ReservationElement| reservation_cells(e));
        let mut rows: Vec<Vec<Option<String>>> = Vec::new();
        rows.push(headings_row());
        let mut total_count: u128 = 0;
        let mut i: usize = 0;
        while i < model.elements.len()
            invariant
                i <= model.elements@.len(),
                model.wf(),
                cells == model.elements@.map_values(|e: ReservationElement| reservation_cells(e)),
                rows_view(rows@) == seq![reservation_headings()] + cells.take(i as int),
                total_count == total_qty(model.elements@.take(i as int)),
                total_count <= i * 0xffff_ffff,
            decreases model.elements@.len() - i,
        {
            let e = &model.elements[i];
            assert(model.elements@[i as int].wf());
            let ghost before = rows@;
            rows.push(reservation_row(e));
            assert(rows_view(rows@) =~= rows_view(before).push(reservation_cells(*e)));
            assert(cells.take(i + 1) =~= cells.take(i as int).push(cells[i as int]));
            assert(model.elements@.take(i + 1).drop_last() =~= model.elements@.take(i as int));
            total_count = total_count + e.qty as u128;
            i = i + 1;
        }
        assert(cells.take(cells.len() as int) =~= cells);
        assert(model.elements@.take(model.elements@.len() as int) =~= model.elements@);
        let mut header: Vec<String> = Vec::new();
        header.push(String::from_str("Active Reservations"));
        assert(strings_view(header@) =~= seq!["Active Reservations"@]);
        let mut aggregates = Vec::new();
        aggregates.push(aggregate("Total Reservations", u128_text(total_count)));
        aggregates.push(aggregate("Total Yearly Spend", format_money(model.total_actual_yearly)));
        aggregates.push(aggregate("Total Yearly Saving", format_money(model.total_saving())));
        assert(aggregates_view(aggregates@) =~= seq![
            ("Total Reservations"@, decimal_text(total_qty(model.elements@))),
            ("Total Yearly Spend"@, usd_text(model.total_actual_yearly as int)),
            ("Total Yearly Saving"@, usd_text(model.total_odm_yearly - model.total_actual_yearly)),
        ]);
        Matrix {
            header: Some(header),
            rows: Some(rows),
            aggregate_rows: Some(aggregates),
            notes: None,
            first_rows_header: true,
        }
    }

    /// The report of the command: the reservations matrix, then, when the
    /// coverage sub-reports were made, the covered-instance matrices and the
    /// uncovered-instance matrices, each retitled. The sub-reports are taken
    /// out of the command.
    pub fn get_matrix_output(&mut self) -> (r: Option<MatrixOutput>)
        requires
            old(self).model matches Some(m) && m.wf(),
            old(self).wide ==> old(self).covered_instances_matrix is Some
                && old(self).uncovered_instances_matrix is Some,
        ensures
            r matches Some(out) && (out.matrix_header matches Some(h) && h.output_program_header
                && (h.title matches Some(t) && t@ == "EC2 Reservations"@)) && (
            out.matrix_footer matches Some(f) && f.output_program_footer && f.footer is None)
                && out.matrices@.len() >= 1 && is_reservations_matrix(
                out.matrices@[0],
                old(self).model.unwrap(),
            ) && (!old(self).wide ==> out.matrices@.len() == 1) && (old(self).wide ==> ({
                let covered = old(self).covered_instances_matrix.unwrap().matrices@;
                let uncovered = old(self).uncovered_instances_matrix.unwrap().matrices@;
                &&& out.matrices@.len() == 1 + covered.len() + uncovered.len()
                &&& forall|k: int|
                    0 <= k < covered.len() ==> retitled(
                        #[trigger] out.matrices@[1 + k],
                        covered[covered.len() - 1 - k],
                        "Covered Instances"@,
                    )
                &&& forall|k: int|
                    0 <= k < uncovered.len() ==> retitled(
                        #[trigger] out.matrices@[1 + covered.len() + k],
                        uncovered[uncovered.len() - 1 - k],
                        "Uncovered Instances"@,
                    )
            })),
            final(self).model == old(self).model,
    {
        let reservations_matrix = self.get_reservations_matrix();
        let mut matrices: Vec<Matrix> = Vec::new();
        matrices.push(reservations_matrix);
        if self.wide {
            let mut covered = match self.covered_instances_matrix.take() {
                Some(c) => c.matrices,
                None => Vec::new(),
            };
            let ghost cv = covered@;
            while covered.len() > 0
                invariant
                    covered@.len() <= cv.len(),
                    covered@ == cv.take(covered@.len() as int),
                    matrices@.len() == 1 + cv.len() - covered@.len(),
                    is_reservations_matrix(matrices@[0], self.model.unwrap()),
                    forall|k: int|
                        0 <= k < cv.len() - covered@.len() ==> retitled(
                            #[trigger] matrices@[1 + k],
                            cv[cv.len() - 1 - k],
                            "Covered Instances"@,
                        ),
                decreases covered@.len(),
            {
                let ghost n = covered@.len();
                let ghost before = covered@;
                assert(before[n - 1] == cv[n - 1]);
                let popped = covered.pop();
                assert(popped == Some(before[n - 1]));
                let mut matrix = popped.unwrap();
                assert(matrix == cv[n - 1]);
                assert(covered@ =~= cv.take(n - 1));
                let mut header = Vec::new();
                header.push(String::from_str("Covered Instances"));
                assert(strings_view(header@) =~= seq!["Covered Instances"@]);
                matrix.header = Some(header);
                matrices.push(matrix);
            }
            let mut uncovered = match self.uncovered_instances_matrix.take() {
                Some(u) => u.matrices,
                None => Vec::new(),
            };
            let ghost uv = uncovered@;
            let ghost base = cv.len();
            while uncovered.len() > 0
                invariant
                    uncovered@.len() <= uv.len(),
                    uncovered@ == uv.take(uncovered@.len() as int),
                    matrices@.len() == 1 + base + uv.len() - uncovered@.len(),
                    is_reservations_matrix(matrices@[0], self.model.unwrap()),
                    forall|k: int|
                        0 <= k < base ==> retitled(
                            #[trigger] matrices@[1 + k],
                            cv[cv.len() - 1 - k],
                            "Covered Instances"@,
                        ),
                    forall|k: int|
                        0 <= k < uv.len() - uncovered@.len() ==> retitled(
                            #[trigger] matrices@[1 + base + k],
                            uv[uv.len() - 1 - k],
                            "Uncovered Instances"@,
                        ),
                decreases uncovered@.len(),
            {
                let ghost n = uncovered@.len();
                let ghost before = uncovered@;
                assert(before[n - 1] == uv[n - 1]);
                let popped = uncovered.pop();
                assert(popped == Some(before[n - 1]));
                let mut matrix = popped.unwrap();
                assert(matrix == uv[n - 1]);
                assert(uncovered@ =~= uv.take(n - 1));
                let mut header = Vec::new();
                header.push(String::from_str("Uncovered Instances"));
                assert(strings_view(header@) =~= seq!["Uncovered Instances"@]);
                matrix.header = Some(header);
                matrices.push(matrix);
            }
        }
        Some(
            MatrixOutput {
                matrix_header: Some(
                    MatrixHeader {
                        title: Some(String::from_str("EC2 Reservations")),
                        output_program_header: true,
                    },
                ),
                matrix_footer: Some(MatrixFooter { footer: None, output_program_footer: true }),
                matrices,
            },
        )
    }
}

/// A cell as plain text: an empty cell is the empty text.
pub open spec fn plain(c: Option<Seq<char>>) -> Seq<char> {
    match c {
        Some(t) => t,
        None => Seq::empty(),
    }
}

pub open spec fn texts_view(v: Seq<String>) -> Seq<Seq<char>> {
    v.map_values(|s: String| s@)
}

pub open spec fn table_view(rows: Seq<Vec<String>>) -> Seq<Seq<Seq<char>>> {
    rows.map_values(|r: Vec<String>| texts_view(r@))
}

/// The headings of the plain reservations table.
pub open spec fn table_headings() -> Seq<Seq<char>> {
    seq![
        "Type"@,
        "#"@,
        "AZ"@,
        "Expiry"@,
        "Days"@,
        "Term Yrs"@,
        "Model"@,
        "$ Res / Hr"@,
        "$ Res Fixed"@,
        "$ Res Yearly"@,
        "$ ODM / Hr"@,
        "$ ODM Yearly"@,
        "$ Saving Yearly"@,
    ]
}

/// The closing line of the plain reservations table: the yearly totals and
/// the saving derived from them.
pub open spec fn totals_line(model: CalculationModel) -> Seq<Seq<char>> {
    seq![
        Seq::empty(),
        Seq::empty(),
        Seq::empty(),
        Seq::empty(),
        Seq::empty(),
        Seq::empty(),
        Seq::empty(),
        Seq::empty(),
        "Total"@,
        usd_text(model.total_actual_yearly as int),
        Seq::empty(),
        usd_text(model.total_odm_yearly as int),
        usd_text(model.total_odm_yearly - model.total_actual_yearly),
    ]
}

fn text_row(cells: Vec<Option<String>>) -> (r: Vec<String>)
    ensures
        texts_view(r@) == row_view(cells@).map_values(|c: Option<Seq<char>>| plain(c)),
{
    let ghost want = row_view(cells@).map_values(|c: Option<Seq<char>>| plain(c));
    let mut r: Vec<String> = Vec::new();
    for c in it: cells
        invariant
            it.seq() == cells@,
            want == row_view(cells@).map_values(|c: Option<Seq<char>>| plain(c)),
            texts_view(r@) == want.take(it.index() as int),
    {
        let ghost k = it.index();
        let ghost before = r@;
        assert(c == cells@[k as int]);
        assert(want[k as int] == plain(row_view(cells@)[k as int]));
        let t = match c {
            Some(t) => t,
            None => String::new(),
        };
        assert(t@ == want[k as int]);
        r.push(t);
        assert(texts_view(r@) =~= texts_view(before).push(want[k as int]));
        assert(texts_view(r@) =~= want.take(k + 1));
    }
    assert(want.take(want.len() as int) =~= want);
    r
}

impl CalculationModel {
    /// The headings of the plain reservations table.
    pub fn get_table_headers(&self, _extended: bool) -> (r: Vec<String>)
        ensures
            texts_view(r@) == table_headings(),
    {
        let mut r: Vec<String> = Vec::new();
        r.push(String::from_str("Type"));
        r.push(String::from_str("#"));
        r.push(String::from_str("AZ"));
        r.push(String::from_str("Expiry"));
        r.push(String::from_str("Days"));
        r.push(String::from_str("Term Yrs"));
        r.push(String::from_str("Model"));
        r.push(String::from_str("$ Res / Hr"));
        r.push(String::from_str("$ Res Fixed"));
        r.push(String::from_str("$ Res Yearly"));
        r.push(String::from_str("$ ODM / Hr"));
        r.push(String::from_str("$ ODM Yearly"));
        r.push(String::from_str("$ Saving Yearly"));
        assert(texts_view(r@) =~= table_headings());
        r
    }

    /// The rows of the plain reservations table: one per reservation, then
    /// an empty row and the line of totals.
    pub fn get_table_rows(&self, _extended: bool) -> (r: Vec<Vec<String>>)
        requires
            self.wf(),
        ensures
            r@.len() == self.elements@.len() + 2,
            forall|i: int|
                0 <= i < self.elements@.len() ==> #[trigger] texts_view(r@[i]@)
                    == reservation_cells(self.elements@[i]).map_values(
                    |c: Option<Seq<char>>| plain(c),
                ),
            r@[self.elements@.len() as int]@.len() == 0,
            texts_view(r@[self.elements@.len() as int + 1]@) == totals_line(*self),
    {
        let mut rows: Vec<Vec<String>> = Vec::new();
        let mut i: usize = 0;
        while i < self.elements.len()
            invariant
                i <= self.elements@.len(),
                self.wf(),
                rows@.len() == i,
                forall|k: int|
                    0 <= k < i ==> #[trigger] texts_view(rows@[k]@) == reservation_cells(
                        self.elements@[k],
                    ).map_values(|c: Option<Seq<char>>| plain(c)),
            decreases self.elements@.len() - i,
        {
            assert(self.elements@[i as int].wf());
            let cells = reservation_row(&self.elements[i]);
            rows.push(text_row(cells));
            i = i + 1;
        }
        rows.push(Vec::new());
        let mut total: Vec<String> = Vec::new();
        let mut k: usize = 0;
        while k < 8
            invariant
                k <= 8,
                total@.len() == k,
                forall|j: int| 0 <= j < k ==> #[trigger] total@[j]@ == Seq::<char>::empty(),
            decreases 8 - k,
        {
            total.push(String::new());
            k = k + 1;
        }
        total.push(String::from_str("Total"));
        total.push(format_money(self.total_actual_yearly));
        total.push(String::new());
        total.push(format_money(self.total_odm_yearly));
        total.push(format_money(self.total_saving()));
        assert(texts_view(total@) =~= totals_line(*self));
        rows.push(total);
        rows
    }
}

} // verus!
