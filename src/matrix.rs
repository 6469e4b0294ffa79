//! Reports as matrices of text: what every output format renders.
use vstd::prelude::*;

verus! {

/// The output of a command that reports through matrices.
#[derive(Clone, Debug, PartialEq, Eq)]
pub struct MatrixOutput {
    pub matrix_header: Option<MatrixHeader>,
    pub matrix_footer: Option<MatrixFooter>,
    pub matrices: Vec<Matrix>,
}

/// The overall header of a report.
#[derive(Clone, Debug, PartialEq, Eq)]
pub struct MatrixHeader {
    /// May contain line breaks; some output formats may render these as an array.
    pub title: Option<String>,
    /// Whether the program header (name and version) is shown.
    pub output_program_header: bool,
}

/// The overall footer of a report.
#[derive(Clone, Debug, PartialEq, Eq)]
pub struct MatrixFooter {
    /// May contain line breaks; some output formats may render these as an array.
    pub footer: Option<String>,
    /// Whether the program footer (run by, run date) is shown.
    pub output_program_footer: bool,
}

/// A coherent set of data for output.
#[derive(Clone, Debug, PartialEq, Eq)]
pub struct Matrix {
    /// May contain line breaks; some output formats may render these as an array.
    pub header: Option<Vec<String>>,
    /// Rows of cells, each already rendered as text; an empty cell is `None`.
    /// Rows are not jagged.
    pub rows: Option<Vec<Vec<Option<String>>>>,
    /// Values computed over the table, such as totals, shown after it.
    pub aggregate_rows: Option<Vec<MatrixAggregateValue>>,
    /// Notes shown with this dataset.
    pub notes: Option<Vec<String>>,
    /// Whether the first row is a header.
    pub first_rows_header: bool,
}

/// A named value computed over a matrix (a total, an average).
#[derive(Clone, Debug, PartialEq, Eq)]
pub struct MatrixAggregateValue {
    pub name: String,
    pub value: String,
}

pub open spec fn row_view(row: Seq<Option<String>>) -> Seq<Option<Seq<char>>> {
    row.map_values(|c: Option<String>| match c {
        Some(s) => Some(s@),
        None => None,
    })
}

/// The cells of a matrix, as text.
pub open spec fn rows_view(rows: Seq<Vec<Option<String>>>) -> Seq<Seq<Option<Seq<char>>>> {
    rows.map_values(|r: Vec<Option<String>>| row_view(r@))
}

/// Names and values of aggregates, as text.
pub open spec fn aggregates_view(a: Seq<MatrixAggregateValue>) -> Seq<(Seq<char>, Seq<char>)> {
    a.map_values(|v: MatrixAggregateValue| (v.name@, v.value@))
}

pub open spec fn strings_view(v: Seq<String>) -> Seq<Seq<char>> {
    v.map_values(|s: String| s@)
}

/// A cell holding `text`.
pub fn cell(text: &str) -> (r: Option<String>)
    ensures
        r matches Some(s) && s@ == text@,
{
    Some(String::from_str(text))
}

/// An aggregate named `name` with value `value`.
pub fn aggregate(name: &str, value: String) -> (r: MatrixAggregateValue)
    ensures
        r.name@ == name@,
        r.value@ == value@,
{
    MatrixAggregateValue { name: String::from_str(name), value }
}

/// A command that produces a fixed sample report, to exercise output formats.
pub struct MatrixTestCommand {}

impl MatrixTestCommand {
    /// The sample report: one titled matrix with a header row, rows with
    /// empty cells, aggregates of several kinds and two notes.
    pub fn generate_matrix_test_set(&self) -> (r: MatrixOutput)
        ensures
            r.matrix_header matches Some(h) && h.output_program_header && (h.title matches Some(t)
                && t@ == "Matrix Header"@),
            r.matrix_footer matches Some(f) && f.output_program_footer && (f.footer matches Some(t)
                && t@ == "Matrix Footer"@),
            r.matrices@.len() == 1,
            r.matrices@[0].first_rows_header,
            r.matrices@[0].header matches Some(h) && strings_view(h@) == seq!["The Matrix Title"@],
            r.matrices@[0].rows matches Some(rows) && rows_view(rows@) == seq![
                seq![Some("Column A"@), Some("Column B"@), Some("Column C"@)],
                seq![Some("Foo"@), None, Some("32"@)],
                seq![Some("Bar"@), Some("Quux"@), Some("Slartibartfast"@)],
                seq![None, Some("Arthur"@), Some("Trillian"@)],
            ],
            r.matrices@[0].aggregate_rows matches Some(a) && aggregates_view(a@) == seq![
                ("Total"@, "2"@),
                ("Average"@, "3.141592653589793"@),
                ("95th Percentile"@, "78"@),
                ("Fred"@, "Jim, Sheila"@),
            ],
            r.matrices@[0].notes matches Some(n) && n@.len() == 2,
    {
        let mut header: Vec<String> = Vec::new();
        header.push(String::from_str("The Matrix Title"));
        let mut rows: Vec<Vec<Option<String>>> = Vec::new();
        let mut row: Vec<Option<String>> = Vec::new();
        row.push(cell("Column A"));
        row.push(cell("Column B"));
        row.push(cell("Column C"));
        assert(row_view(row@) =~= seq![Some("Column A"@), Some("Column B"@), Some("Column C"@)]);
        rows.push(row);
        let mut row: Vec<Option<String>> = Vec::new();
        row.push(cell("Foo"));
        row.push(None);
        row.push(cell("32"));
        assert(row_view(row@) =~= seq![Some("Foo"@), None, Some("32"@)]);
        rows.push(row);
        let mut row: Vec<Option<String>> = Vec::new();
        row.push(cell("Bar"));
        row.push(cell("Quux"));
        row.push(cell("Slartibartfast"));
        assert(row_view(row@) =~= seq![Some("Bar"@), Some("Quux"@), Some("Slartibartfast"@)]);
        rows.push(row);
        let mut row: Vec<Option<String>> = Vec::new();
        row.push(None);
        row.push(cell("Arthur"));
        row.push(cell("Trillian"));
        assert(row_view(row@) =~= seq![None, Some("Arthur"@), Some("Trillian"@)]);
        rows.push(row);
        let mut aggregates: Vec<MatrixAggregateValue> = Vec::new();
        aggregates.push(aggregate("Total", String::from_str("2")));
        aggregates.push(aggregate("Average", String::from_str("3.141592653589793")));
        aggregates.push(aggregate("95th Percentile", String::from_str("78")));
        aggregates.push(aggregate("Fred", String::from_str("Jim, Sheila")));
        let mut notes: Vec<String> = Vec::new();
        notes.push(
            String::from_str(
                "Lorem ipsum dolor sit amet, consectetur adipiscing elit. Proin ut lobortis ipsum, et efficitur enim. Sed imperdiet risus ut dapibus tristique. Sed convallis lectus nulla, non cursus lorem mollis et. ",
            ),
        );
        notes.push(
            String::from_str(
                "Sed at viverra erat. Pellentesque non risus molestie, aliquam eros a, consequat neque. Morbi volutpat rhoncus sem, in posuere nunc pharetra quis. Etiam eget neque eu odio dignissim aliquam ut ut velit.",
            ),
        );
        assert(strings_view(header@) =~= seq!["The Matrix Title"@]);
        assert(rows_view(rows@) =~= seq![
            seq![Some("Column A"@), Some("Column B"@), Some("Column C"@)],
            seq![Some("Foo"@), None, Some("32"@)],
            seq![Some("Bar"@), Some("Quux"@), Some("Slartibartfast"@)],
            seq![None, Some("Arthur"@), Some("Trillian"@)],
        ]);
        assert(aggregates_view(aggregates@) =~= seq![
            ("Total"@, "2"@),
            ("Average"@, "3.141592653589793"@),
            ("95th Percentile"@, "78"@),
            ("Fred"@, "Jim, Sheila"@),
        ]);
        let matrix = Matrix {
            header: Some(header),
            rows: Some(rows),
            aggregate_rows: Some(aggregates),
            notes: Some(notes),
            first_rows_header: true,
        };
        let mut matrices: Vec<Matrix> = Vec::new();
        matrices.push(matrix);
        MatrixOutput {
            matrix_header: Some(
                MatrixHeader {
                    title: Some(String::from_str("Matrix Header")),
                    output_program_header: true,
                },
            ),
            matrix_footer: Some(
                MatrixFooter {
                    footer: Some(String::from_str("Matrix Footer")),
                    output_program_footer: true,
                },
            ),
            matrices,
        }
    }

    /// The report of this command.
    pub fn get_matrix_output(&self) -> (r: Option<MatrixOutput>)
        ensures
            r is Some,
    {
        Some(self.generate_matrix_test_set())
    }
}

} // verus!
