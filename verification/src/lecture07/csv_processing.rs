//! A CSV text rendered as a table.

use vstd::prelude::*;
use crate::lecture05::csv_processing::{CsvTable, CsvView, lemma_line_taken_is_take_line, rule_width, table_of, table_text};
use crate::text::{chars_of, split_chars, split_on, string_of, views};

verus! {

/// Whether a table can be rendered: a rendered line's width fits in a `usize`.
pub open spec fn renderable(v: CsvView) -> bool {
    v.header.len() > 0 ==> rule_width(v.widths) <= usize::MAX
}

/// Renders a CSV text as a table: its lines are taken in one after another,
/// the first one that is not blank being the header; lines with a wrong
/// number of fields are left out.
pub fn create_csv_table(content: &str) -> (r: String)
    ensures
        r@ == if renderable(table_of(split_on(content@, '\n'))) {
            table_text(table_of(split_on(content@, '\n')))
        } else {
            Seq::empty()
        },
{
    let cs = chars_of(content);
    let lines = split_chars(cs.as_slice(), '\n');
    let ghost all = views(lines@);
    let mut table = CsvTable::new();
    assert(table@ == table_of(all.take(0))) by {
        assert(table@.header =~= Seq::<Seq<char>>::empty());
        assert(table@.rows =~= Seq::<Seq<Seq<char>>>::empty());
        assert(table@.widths =~= Seq::<nat>::empty());
        assert(all.take(0) =~= Seq::<Seq<char>>::empty());
    }
    let n = lines.len();
    for i in 0..n
        invariant
            n == lines@.len(),
            all == views(lines@),
            table.wf(),
            table@ == table_of(all.take(i as int)),
    {
        let line = string_of(lines[i].as_slice());
        let ghost before = table@;
        let taken = table.write_text(line.as_str());
        proof {
            lemma_line_taken_is_take_line(before, line@, table@, taken);
            assert(all.take(i + 1).drop_last() =~= all.take(i as int));
            assert(all.take(i + 1).last() == line@);
        }
    }
    assert(all.take(n as int) =~= all);
    if table.fits_rendering() {
        table.output_to()
    } else {
        String::new()
    }
}

} // verus!
