//! Turning successful payloads into the text shown to the user.
use vstd::prelude::*;
use crate::error::{error_message, Error};
use crate::cell::{cell_fits, cell_fits_text, lemma_plain_fits};

verus! {

/// One person record as listed by an instance.
#[derive(Debug)]
pub struct Person {
    pub name: String,
    pub email: String,
    pub is_mentor: bool,
}

/// The text of a flag.
pub open spec fn bool_text(b: bool) -> Seq<char> {
    if b {
        "true"@
    } else {
        "false"@
    }
}

/// The header row of the people table.
pub open spec fn people_header() -> Seq<Seq<char>> {
    seq!["Name"@, "Email"@, "Is mentor"@]
}

/// The table row of one person.
pub open spec fn person_row(p: Person) -> Seq<Seq<char>> {
    seq![p.name@, p.email@, bool_text(p.is_mentor)]
}

/// The rows of the people table: the header, then one row per person in order.
pub open spec fn people_rows_spec(people: Seq<Person>) -> Seq<Seq<Seq<char>>> {
    seq![people_header()] + people.map_values(|p: Person| person_row(p))
}

/// Every cell of every row can be laid out.
pub open spec fn rows_fit(rows: Seq<Seq<Seq<char>>>) -> bool {
    forall|i: int, j: int| 0 <= i < rows.len() && 0 <= j < rows[i].len() ==> cell_fits(#[trigger] rows[i][j])
}

/// The texts of a person record can be laid out as cells.
pub open spec fn person_fits(p: Person) -> bool {
    cell_fits(p.name@) && cell_fits(p.email@)
}

/// Every person record can be laid out as a table row.
pub open spec fn people_fit(people: Seq<Person>) -> bool {
    forall|i: int| 0 <= i < people.len() ==> person_fits(#[trigger] people[i])
}

/// The text that prettytable renders for a table with the given rows. Within
/// one build it depends on the rows alone; the line ending is the target
/// platform's (`\r\n` on Windows).
pub uninterp spec fn table_text(rows: Seq<Seq<Seq<char>>>) -> Seq<char>;

/// Relies on prettytable's `Table::new`, `Table::add_row`, `Row::new`,
/// `Cell::new` and its `Display` impl: the bordered text of a table with one
/// row per entry of `rows` and one cell per string. `Cell::new` asserts of
/// each line of a cell that the characters hidden in colour sequences do not
/// exceed its width, so every cell must fit.
#[verifier::external_body]
fn render_table(rows: &Vec<Vec<String>>) -> (r: String)
    requires
        rows_fit(rows.deep_view()),
    ensures
        r@ == table_text(rows.deep_view()),
{
    let mut table = prettytable::Table::new();
    for row in rows {
        table.add_row(prettytable::Row::new(row.iter().map(|c| prettytable::Cell::new(c)).collect()));
    }
    table.to_string()
}

/// The text of a flag.
pub fn bool_string(b: bool) -> (r: String)
    ensures
        r@ == bool_text(b),
{
    if b {
        String::from_str("true")
    } else {
        String::from_str("false")
    }
}

/// The rows of the people table.
pub fn people_rows(people: &Vec<Person>) -> (r: Vec<Vec<String>>)
    ensures
        r.deep_view() == people_rows_spec(people@),
{
    let mut rows: Vec<Vec<String>> = Vec::new();
    rows.push(vec![String::from_str("Name"), String::from_str("Email"), String::from_str("Is mentor")]);
    assert(rows@[0].deep_view() =~= people_header());
    let mut i: usize = 0;
    while i < people.len()
        invariant
            i <= people@.len(),
            rows@.len() == i + 1,
            forall|j: int| 0 <= j <= i ==> #[trigger] rows@[j].deep_view() == people_rows_spec(people@)[j],
        decreases people@.len() - i,
    {
        let p = &people[i];
        let row = vec![p.name.clone(), p.email.clone(), bool_string(p.is_mentor)];
        assert(row.deep_view() =~= person_row(people@[i as int]));
        rows.push(row);
        i = i + 1;
    }
    assert(rows.deep_view() =~= people_rows_spec(people@));
    rows
}

/// The header texts and the flag texts can be laid out.
pub proof fn lemma_fixed_cells_fit()
    ensures
        cell_fits("Name"@),
        cell_fits("Email"@),
        cell_fits("Is mentor"@),
        cell_fits("true"@),
        cell_fits("false"@),
{
    reveal_strlit("Name");
    reveal_strlit("Email");
    reveal_strlit("Is mentor");
    reveal_strlit("true");
    reveal_strlit("false");
    lemma_plain_fits("Name"@, 0);
    lemma_plain_fits("Email"@, 0);
    lemma_plain_fits("Is mentor"@, 0);
    lemma_plain_fits("true"@, 0);
    lemma_plain_fits("false"@, 0);
}

/// The rows of person records that fit can be laid out.
pub proof fn lemma_people_rows_fit(people: Seq<Person>)
    requires
        people_fit(people),
    ensures
        rows_fit(people_rows_spec(people)),
{
    lemma_fixed_cells_fit();
    let rows = people_rows_spec(people);
    assert forall|i: int, j: int| 0 <= i < rows.len() && 0 <= j < rows[i].len() implies cell_fits(
        #[trigger] rows[i][j],
    ) by {
        if i > 0 {
            assert(rows[i] == person_row(people[i - 1]));
            assert(person_fits(people[i - 1]));
        }
    }
}

/// Whether every person record can be laid out as a table row.
pub fn people_fit_table(people: &Vec<Person>) -> (r: bool)
    ensures
        r == people_fit(people@),
{
    let mut i: usize = 0;
    while i < people.len()
        invariant
            i <= people@.len(),
            forall|j: int| 0 <= j < i ==> person_fits(#[trigger] people@[j]),
        decreases people@.len() - i,
    {
        let p = &people[i];
        if !cell_fits_text(p.name.as_str()) || !cell_fits_text(p.email.as_str()) {
            assert(!person_fits(people@[i as int]));
            return false;
        }
        i = i + 1;
    }
    true
}

/// The people table: a header row, then name, email and mentor flag of each
/// person in order.
pub fn show_people_table(people: &Vec<Person>) -> (r: String)
    requires
        people_fit(people@),
    ensures
        r@ == table_text(people_rows_spec(people@)),
{
    let rows = people_rows(people);
    proof {
        lemma_people_rows_fit(people@);
    }
    render_table(&rows)
}

/// A growing buffer of text.
pub struct StringWriter {
    content: String,
}

impl View for StringWriter {
    type V = Seq<char>;

    closed spec fn view(&self) -> Seq<char> {
        self.content@
    }
}

impl StringWriter {
    /// An empty buffer.
    pub fn new() -> (r: StringWriter)
        ensures
            r@ == Seq::<char>::empty(),
    {
        StringWriter { content: String::new() }
    }

    /// Appends `s`.
    pub fn write(&mut self, s: &str)
        ensures
            final(self)@ == old(self)@ + s@,
    {
        self.content.append(s);
    }

    /// The text written so far.
    pub fn into_string(self) -> (r: String)
        ensures
            r@ == self@,
    {
        self.content
    }
}

/// The line printed for the outcome of an operation.
pub open spec fn outcome_text(result: Result<Seq<char>, Error>) -> Seq<char> {
    match result {
        Ok(payload) => "Success: "@ + payload,
        Err(e) => "Failure: "@ + error_message(e),
    }
}

/// The line printed for the outcome of an operation: `Success: ` and the
/// payload, or `Failure: ` and the error's message.
pub fn outcome_line(result: &Result<String, Error>) -> (r: String)
    ensures
        r@ == outcome_text(match result {
            Ok(p) => Ok(p@),
            Err(e) => Err(*e),
        }),
{
    let mut out = StringWriter::new();
    match result {
        Ok(payload) => {
            out.write("Success: ");
            out.write(payload.as_str());
        },
        Err(e) => {
            out.write("Failure: ");
            out.write(e.message());
        },
    }
    out.into_string()
}

} // verus!
