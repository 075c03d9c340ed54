//! Projection of records through the column specification into text rows.

use vstd::prelude::*;

use crate::config::{Config, ConfigModel};
use crate::flatten::{expand_all, flatten_record};
use crate::render::{parsed_of, parse_record, render_cell, render_text};
use crate::resolve::resolve;
use crate::value::{resolve_path, Value};

verus! {

/// Cells joined by single commas, element order preserved, no further
/// escaping: the joined text of an empty sequence is empty.
pub open spec fn join_comma(cells: Seq<Seq<char>>) -> Seq<char>
    decreases cells.len(),
{
    if cells.len() == 0 {
        Seq::empty()
    } else if cells.len() == 1 {
        cells[0]
    } else {
        cells[0] + seq![','] + join_comma(cells.drop_first())
    }
}

/// Appending one cell appends a comma and the cell, except to nothing.
pub proof fn lemma_join_push(cells: Seq<Seq<char>>, c: Seq<char>)
    ensures
        join_comma(cells.push(c)) == if cells.len() == 0 {
            c
        } else {
            join_comma(cells) + seq![','] + c
        },
    decreases cells.len(),
{
    let p = cells.push(c);
    if cells.len() == 0 {
        assert(p.len() == 1);
        assert(p[0] == c);
    } else {
        lemma_join_push(cells.drop_first(), c);
        assert(p[0] == cells[0]);
        assert(p.drop_first() =~= cells.drop_first().push(c));
        if cells.len() == 1 {
            assert(join_comma(p) == cells[0] + seq![','] + c);
        } else {
            assert(cells[0] + seq![','] + (join_comma(cells.drop_first()) + seq![','] + c) =~= (
            cells[0] + seq![','] + join_comma(cells.drop_first())) + seq![','] + c);
        }
    }
}

/// The text of one cell: the column's path resolved against the record
/// and rendered under the run's mode.
pub open spec fn cell_text(v: Value, path: Seq<char>, escape: bool) -> Seq<char> {
    render_text(resolve_path(v, path), escape)
}

/// The cells of one row, one per column, in column order.
pub open spec fn cells_of(
    v: Value,
    cols: Seq<(Seq<char>, Seq<char>)>,
    escape: bool,
) -> Seq<Seq<char>> {
    Seq::new(cols.len(), |i: int| cell_text(v, cols[i].1, escape))
}

/// The text of one data row: the record's cells joined by commas.
pub open spec fn row_text(v: Value, cols: Seq<(Seq<char>, Seq<char>)>, escape: bool) -> Seq<char> {
    join_comma(cells_of(v, cols, escape))
}

/// The header's text: the column labels joined by commas.
pub open spec fn header_text(cols: Seq<(Seq<char>, Seq<char>)>) -> Seq<char> {
    join_comma(cols.map_values(|c: (Seq<char>, Seq<char>)| c.0))
}

/// A row always carries one cell per column: the shape of every data row
/// and of the header follows the column specification alone.
pub proof fn lemma_row_shape(v: Value, cols: Seq<(Seq<char>, Seq<char>)>, escape: bool)
    ensures
        cells_of(v, cols, escape).len() == cols.len(),
        cols.map_values(|c: (Seq<char>, Seq<char>)| c.0).len() == cols.len(),
{
}

/// Projects one record into one data row under the configured columns
/// and rendering mode.
pub fn project_row(record: &Value, columns: &Vec<(String, String)>, escape: bool) -> (row: String)
    ensures
        row@ == row_text(*record, crate::config::col_views(columns@), escape),
{
    let ghost cols = crate::config::col_views(columns@);
    let ghost cells = cells_of(*record, cols, escape);
    let mut row = String::new();
    let mut i: usize = 0;
    proof {
        assert(cells.subrange(0, 0) =~= Seq::<Seq<char>>::empty());
    }
    while i < columns.len()
        invariant
            i <= columns.len(),
            cols == crate::config::col_views(columns@),
            cells == cells_of(*record, cols, escape),
            row@ == join_comma(cells.subrange(0, i as int)),
        decreases columns.len() - i,
    {
        let target = resolve(record, columns[i].1.as_str());
        let cell = render_cell(target, escape);
        proof {
            assert(cols[i as int].1 == columns@[i as int].1@);
            assert(cell@ == cells[i as int]);
            lemma_join_push(cells.subrange(0, i as int), cells[i as int]);
            assert(cells.subrange(0, i as int).push(cells[i as int]) =~= cells.subrange(
                0,
                i + 1,
            ));
        }
        if i > 0 {
            row.append(",");
            proof {
                reveal_strlit(",");
                assert(","@ =~= seq![',']);
            }
        }
        row.append(cell.as_str());
        i = i + 1;
    }
    proof {
        assert(cells.subrange(0, columns@.len() as int) =~= cells);
    }
    row
}

/// The header line: the column labels joined by commas, in declared
/// order.  The caller emits it at most once, before any data row.
pub fn get_header(config: &Config) -> (line: String)
    ensures
        line@ == header_text(config@.columns),
{
    let ghost labels = config@.columns.map_values(|c: (Seq<char>, Seq<char>)| c.0);
    let mut line = String::new();
    let mut i: usize = 0;
    proof {
        assert(labels.subrange(0, 0) =~= Seq::<Seq<char>>::empty());
    }
    while i < config.columns.len()
        invariant
            i <= config.columns.len(),
            labels == config@.columns.map_values(|c: (Seq<char>, Seq<char>)| c.0),
            labels.len() == config.columns.len(),
            line@ == join_comma(labels.subrange(0, i as int)),
        decreases config.columns.len() - i,
    {
        proof {
            assert(labels[i as int] == config.columns@[i as int].0@);
            lemma_join_push(labels.subrange(0, i as int), labels[i as int]);
            assert(labels.subrange(0, i as int).push(labels[i as int]) =~= labels.subrange(
                0,
                i + 1,
            ));
        }
        if i > 0 {
            line.append(",");
            proof {
                reveal_strlit(",");
                assert(","@ =~= seq![',']);
            }
        }
        line.append(config.columns[i].0.as_str());
        i = i + 1;
    }
    proof {
        assert(labels.subrange(0, labels.len() as int) =~= labels);
    }
    line
}

/// The rows that one parsed record yields: the record flattened into
/// records, each projected into a row, in expansion order.
pub open spec fn rows_of(r: Value, cm: ConfigModel) -> Seq<Seq<char>> {
    let recs = expand_all(seq![r], cm.flats);
    Seq::new(recs.len(), |i: int| row_text(recs[i], cm.columns, cm.escape))
}

/// Flattens one record and projects every resulting record into a row.
pub fn project_record(record: Value, config: &Config) -> (rows: Vec<String>)
    ensures
        rows@.map_values(|s: String| s@) == rows_of(record, config@),
{
    let ghost expected = rows_of(record, config@);
    let recs = flatten_record(record, &config.flat_path);
    let mut rows: Vec<String> = Vec::new();
    let mut i: usize = 0;
    proof {
        assert(rows@.map_values(|s: String| s@) =~= expected.subrange(0, 0));
    }
    while i < recs.len()
        invariant
            i <= recs.len(),
            expected == rows_of(record, config@),
            recs@ == expand_all(seq![record], config@.flats),
            expected.len() == recs@.len(),
            rows@.map_values(|s: String| s@) == expected.subrange(0, i as int),
        decreases recs.len() - i,
    {
        let ghost r0 = rows@;
        let row = project_row(&recs[i], &config.columns, config.string_escape);
        rows.push(row);
        proof {
            assert(row@ == expected[i as int]);
            assert(rows@.map_values(|s: String| s@) =~= r0.map_values(|s: String| s@).push(row@));
            assert(r0.map_values(|s: String| s@).push(row@) =~= expected.subrange(0, i + 1));
        }
        i = i + 1;
    }
    proof {
        assert(expected.subrange(0, recs@.len() as int) =~= expected);
    }
    rows
}

/// The data rows of a whole run: each input line's rows in input order,
/// cut short at the first malformed line, which aborts the run.
pub open spec fn rows_of_lines(ls: Seq<Seq<char>>, cm: ConfigModel) -> Seq<Seq<char>>
    decreases ls.len(),
{
    if ls.len() == 0 {
        Seq::empty()
    } else {
        match parsed_of(ls[0]) {
            Some(r) => rows_of(r, cm) + rows_of_lines(ls.drop_first(), cm),
            None => Seq::empty(),
        }
    }
}

/// The optional header line of a run: one line when enabled, none
/// otherwise.
pub open spec fn header_lines(cm: ConfigModel) -> Seq<Seq<char>> {
    if cm.header {
        seq![header_text(cm.columns)]
    } else {
        Seq::empty()
    }
}

/// A whole run's output: its lines, and whether the run was cut short by
/// a malformed input line.
pub struct RunOutput {
    pub lines: Vec<String>,
    pub aborted: bool,
}

/// Processes a whole run: the header, when enabled, comes exactly once
/// and first, whatever the number of data rows; then every input line's
/// rows, in input order, up to the first malformed line, which aborts
/// the run.
pub fn process_lines(input: &Vec<String>, config: &Config) -> (out: RunOutput)
    ensures
        out.lines@.map_values(|s: String| s@) == header_lines(config@) + rows_of_lines(
            input@.map_values(|s: String| s@),
            config@,
        ),
        out.aborted == exists|j: int|
            0 <= j < input@.len() && parsed_of(input@[j]@) is None,
{
    let ghost lv = input@.map_values(|s: String| s@);
    let ghost hdr = header_lines(config@);
    let mut lines: Vec<String> = Vec::new();
    if config.header {
        lines.push(get_header(config));
    }
    proof {
        assert(lines@.map_values(|s: String| s@) =~= hdr);
        assert(lv.subrange(0, lv.len() as int) =~= lv);
    }
    let mut i: usize = 0;
    while i < input.len()
        invariant
            i <= input.len(),
            lv == input@.map_values(|s: String| s@),
            hdr == header_lines(config@),
            forall|j: int| 0 <= j < i ==> parsed_of(lv[j]) is Some,
            lines@.map_values(|s: String| s@) + rows_of_lines(
                lv.subrange(i as int, lv.len() as int),
                config@,
            ) == hdr + rows_of_lines(lv, config@),
        decreases input.len() - i,
    {
        let ghost l0 = lines@;
        let ghost suffix = lv.subrange(i as int, lv.len() as int);
        proof {
            assert(suffix[0] == lv[i as int]);
            assert(suffix.drop_first() =~= lv.subrange(i + 1, lv.len() as int));
        }
        match process_line(input[i].as_str(), config) {
            Some(mut rows) => {
                let ghost r0 = rows@;
                lines.append(&mut rows);
                proof {
                    assert(parsed_of(lv[i as int]) is Some);
                    assert(lines@ =~= l0 + r0);
                    assert(lines@.map_values(|s: String| s@) =~= l0.map_values(|s: String| s@)
                        + r0.map_values(|s: String| s@));
                    assert((l0.map_values(|s: String| s@) + r0.map_values(|s: String| s@))
                        + rows_of_lines(suffix.drop_first(), config@) =~= l0.map_values(
                        |s: String| s@) + (r0.map_values(|s: String| s@) + rows_of_lines(
                        suffix.drop_first(), config@)));
                }
                i = i + 1;
            },
            None => {
                proof {
                    assert(parsed_of(lv[i as int]) is None);
                    assert(rows_of_lines(suffix, config@) =~= Seq::<Seq<char>>::empty());
                    assert(lines@.map_values(|s: String| s@) =~= lines@.map_values(
                        |s: String| s@) + rows_of_lines(suffix, config@));
                    assert(input@[i as int]@ == lv[i as int]);
                    assert(0 <= i < input@.len() && parsed_of(input@[i as int]@) is None);
                }
                return RunOutput { lines, aborted: true };
            },
        }
    }
    proof {
        assert forall|j: int| 0 <= j < input@.len() implies parsed_of(input@[j]@) is Some by {
            assert(lv[j] == input@[j]@);
        };
        assert(lv.subrange(i as int, lv.len() as int).len() == 0);
        assert(rows_of_lines(lv.subrange(i as int, lv.len() as int), config@)
            =~= Seq::<Seq<char>>::empty());
        assert(lines@.map_values(|s: String| s@) =~= lines@.map_values(|s: String| s@)
            + rows_of_lines(lv.subrange(i as int, lv.len() as int), config@));
    }
    RunOutput { lines, aborted: false }
}

/// Handles one input line: parses it, flattens the record, and projects
/// every resulting record into a row.  `None` reports a malformed line,
/// which the caller treats as fatal for the run.
pub fn process_line(line: &str, config: &Config) -> (out: Option<Vec<String>>)
    ensures
        match parsed_of(line@) {
            None => out is None,
            Some(r) => out matches Some(rows) && rows@.map_values(|s: String| s@) == rows_of(
                r,
                config@,
            ),
        },
{
    match parse_record(line) {
        None => None,
        Some(v) => Some(project_record(v, config)),
    }
}

} // verus!
