//! Tables of glyphs as one text.

use itertools::Itertools;
use vstd::prelude::*;
use vstd::string::StringExecFns;

verus! {

/// The parts in their order, with `sep` between each two neighbours.
pub open spec fn joined(parts: Seq<Seq<char>>, sep: Seq<char>) -> Seq<char>
    decreases parts.len(),
{
    if parts.len() == 0 {
        Seq::empty()
    } else if parts.len() == 1 {
        parts[0]
    } else {
        joined(parts.drop_last(), sep) + sep + parts.last()
    }
}

/// The characters of each string of `parts`.
pub open spec fn views(parts: Seq<String>) -> Seq<Seq<char>> {
    Seq::new(parts.len(), |k: int| parts[k]@)
}

/// The glyphs of each row of `table`, one behind the other.
pub open spec fn row_texts(table: Seq<Vec<String>>) -> Seq<Seq<char>> {
    Seq::new(table.len(), |i: int| joined(views(table[i]@), Seq::empty()))
}

/// The strings of `parts` in their order, with `sep` between each two
/// neighbours.
///
/// Trusted: the body calls `itertools::Itertools::join` on the iterator over
/// `parts`. That method writes the first item, then for each further item the
/// separator and the item, and gives the empty string for no item; the
/// contract states this result. A `String` is written as its characters.
#[verifier::external_body]
fn join_strings(parts: &Vec<String>, sep: &str) -> (text: String)
    ensures
        text@ == joined(views(parts@), sep@),
{
    parts.iter().join(sep)
}

/// The glyphs of `row`, one behind the other.
pub fn row_text(row: &Vec<String>) -> (text: String)
    ensures
        text@ == joined(views(row@), Seq::empty()),
{
    let mut text = String::new();
    let mut j: usize = 0;
    while j < row.len()
        invariant
            j <= row@.len(),
            text@ == joined(views(row@.take(j as int)), Seq::empty()),
        decreases row@.len() - j,
    {
        proof {
            let shorter = views(row@.take(j as int));
            let longer = views(row@.take(j + 1));
            assert(longer.drop_last() =~= shorter);
            assert(longer.last() == row@[j as int]@);
            assert(joined(longer, Seq::empty()) =~= joined(shorter, Seq::empty())
                + row@[j as int]@);
        }
        text.append(row[j].as_str());
        j += 1;
    }
    assert(row@.take(j as int) =~= row@);
    text
}

/// The rows of `table` as lines of one text: the glyphs of a row one behind
/// the other, and a line feed between each two rows.
pub fn table_text(table: &Vec<Vec<String>>) -> (text: String)
    ensures
        text@ == joined(row_texts(table@), seq!['\n']),
{
    let mut lines: Vec<String> = Vec::new();
    let mut i: usize = 0;
    while i < table.len()
        invariant
            i <= table@.len(),
            lines@.len() == i,
            forall|k: int| 0 <= k < i ==> (#[trigger] lines@[k])@ == row_texts(table@)[k],
        decreases table@.len() - i,
    {
        lines.push(row_text(&table[i]));
        i += 1;
    }
    proof {
        reveal_strlit("\n");
        assert("\n"@ =~= seq!['\n']);
        assert(views(lines@) =~= row_texts(table@));
    }
    join_strings(&lines, "\n")
}

} // verus!
