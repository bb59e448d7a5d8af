//! Lines of a CSV file: the header, and the rows that count as data.

use vstd::prelude::*;
use crate::text::{
    chars_of, is_blank, lemma_texts_push, split, split_fields, string_of, texts, trim, trimmed,
};

verus! {

/// The fields of a header line: what stands between its commas, without
/// the white space around it.
pub open spec fn header_fields(line: Seq<char>) -> Seq<Seq<char>> {
    let raw = split_fields(line, ',');
    Seq::new(raw.len(), |i: int| trimmed(raw[i]))
}

/// True when a line counts as a row of data under a header of `width`
/// columns: it is not blank and has at least half as many fields.
pub open spec fn is_data_line(line: Seq<char>, width: int) -> bool {
    !is_blank(line) && split_fields(line, ',').len() >= width / 2
}

/// The rows of data among the lines `from..n`, each cut at its commas.
pub open spec fn data_rows_upto(lines: Seq<Seq<char>>, from: int, width: int, n: int) -> Seq<
    Seq<Seq<char>>,
>
    decreases n - from,
{
    if n <= from {
        Seq::empty()
    } else {
        let before = data_rows_upto(lines, from, width, n - 1);
        if is_data_line(lines[n - 1], width) {
            before.push(split_fields(lines[n - 1], ','))
        } else {
            before
        }
    }
}

/// The rows of data among the lines from `from` on.
pub open spec fn data_rows(lines: Seq<Seq<char>>, from: int, width: int) -> Seq<Seq<Seq<char>>> {
    data_rows_upto(lines, from, width, lines.len() as int)
}

/// The texts that rows hold.
pub open spec fn row_texts(rows: Seq<Vec<String>>) -> Seq<Seq<Seq<char>>> {
    Seq::new(rows.len(), |i: int| texts(rows[i]@))
}

/// The index of the first line from `from` on that is not blank, or the
/// number of lines where all are blank.
pub open spec fn first_filled(lines: Seq<Seq<char>>, from: int) -> int
    decreases lines.len() - from,
{
    if from >= lines.len() || from < 0 {
        lines.len() as int
    } else if !is_blank(lines[from]) {
        from
    } else {
        first_filled(lines, from + 1)
    }
}

/// Says whether a line holds nothing but white space.
pub fn is_blank_line(line: &str) -> (r: bool)
    ensures
        r == is_blank(line@),
{
    trim(&chars_of(line)).len() == 0
}

/// A text without the white space around it.
pub fn trim_text(text: &str) -> (r: String)
    ensures
        r@ == trimmed(text@),
{
    string_of(&trim(&chars_of(text)))
}

/// Cuts a header line at its commas and strips each field.
pub fn split_header(line: &str) -> (fields: Vec<String>)
    ensures
        texts(fields@) == header_fields(line@),
{
    let raw = split(line, ',');
    let mut fields: Vec<String> = Vec::new();
    let mut i: usize = 0;
    while i < raw.len()
        invariant
            i <= raw.len(),
            texts(raw@) == split_fields(line@, ','),
            texts(fields@) =~= Seq::new(i as nat, |k: int| trimmed(texts(raw@)[k])),
        decreases raw.len() - i,
    {
        let field = trim_text(raw[i].as_str());
        proof {
            lemma_texts_push(fields@, field);
        }
        fields.push(field);
        i += 1;
    }
    proof {
        assert(texts(fields@) =~= header_fields(line@));
    }
    fields
}

/// Finds the first line from `from` on that is not blank.
pub fn find_filled(lines: &Vec<String>, from: usize) -> (r: usize)
    ensures
        r == first_filled(texts(lines@), from as int),
        r <= lines.len(),
        from <= lines.len() ==> from <= r,
{
    let mut i: usize = from;
    while i < lines.len() && is_blank_line(lines[i].as_str())
        invariant
            first_filled(texts(lines@), from as int) == first_filled(texts(lines@), i as int),
            from <= i,
        decreases lines.len() - i,
    {
        i += 1;
    }
    if i > lines.len() {
        lines.len()
    } else {
        i
    }
}

/// Gathers the rows of data among the lines from `from` on, each cut at
/// its commas.
pub fn read_rows(lines: &Vec<String>, from: usize, width: usize) -> (rows: Vec<Vec<String>>)
    ensures
        row_texts(rows@) == data_rows(texts(lines@), from as int, width as int),
{
    let mut rows: Vec<Vec<String>> = Vec::new();
    let mut i: usize = from;
    if from >= lines.len() {
        assert(row_texts(rows@) =~= data_rows(texts(lines@), from as int, width as int));
        return rows;
    }
    assert(row_texts(rows@) =~= data_rows_upto(texts(lines@), from as int, width as int, i as int));
    while i < lines.len()
        invariant
            from <= i <= lines.len(),
            row_texts(rows@) == data_rows_upto(
                texts(lines@),
                from as int,
                width as int,
                i as int,
            ),
        decreases lines.len() - i,
    {
        let line = lines[i].as_str();
        if !is_blank_line(line) {
            let fields = split(line, ',');
            if fields.len() >= width / 2 {
                proof {
                    assert(row_texts(rows@.push(fields)) =~= row_texts(rows@).push(
                        texts(fields@),
                    ));
                }
                rows.push(fields);
            }
        }
        i += 1;
    }
    rows
}

} // verus!
