//! Choosing a transformation by name and applying it to the lines of the
//! input; with `csv`, the lines are collected into a table that is shown at
//! the end.

use vstd::prelude::*;
use crate::lecture05::csv_processing::{
    CsvError, CsvTable, CsvView, line_taken, rule_width, table_text,
};
use crate::lecture05::custom_errors::AppError;
use crate::text::{chars_of, is_white_space, str_equals, string_of, trim, trim_start, trimmed};
use crate::transform::{
    Transformation, allowed_names, allowed_names_text, select, selected, transform, transformed,
};

verus! {

/// The first argument given to a program, leaving out the program's path.
pub trait OnlyFirstCliArg {
    fn only_first_provided(self) -> Option<String>;
}

impl OnlyFirstCliArg for Vec<String> {
    /// The second item, if there is one.
    fn only_first_provided(self) -> (r: Option<String>)
        ensures
            r == if self@.len() >= 2 {
                Some(self@[1])
            } else {
                None
            },
    {
        let mut args = self;
        if args.len() >= 2 {
            Some(args.remove(1))
        } else {
            None
        }
    }
}

/// A transformation chosen by name.
pub struct TextTransformer<'a> {
    method: Transformation,
    pub method_name: &'a str,
}

impl<'a> TextTransformer<'a> {
    /// The chosen transformation.
    pub closed spec fn method(&self) -> Transformation {
        self.method
    }

    /// The name the transformation was chosen by.
    pub closed spec fn name(&self) -> Seq<char> {
        self.method_name@
    }

    /// Chooses the transformation that `method_name` names, among the six
    /// text transformations and `csv`.
    pub fn new(method_name: &'a str) -> (r: Result<Self, AppError>)
        ensures
            match selected(method_name@, true) {
                Some(t) => r matches Ok(tt) && tt.method() == t && tt.name() == method_name@,
                None => r matches Err(AppError::InvalidCliArgument { message }) && message@
                    == "Invalid argument: '"@ + method_name@ + "'\nAllowed arguments: "@
                    + allowed_names(true),
            },
    {
        match select(method_name, true) {
            Some(method) => Ok(TextTransformer { method, method_name }),
            None => {
                let mut message = String::from_str("Invalid argument: '");
                message.append(method_name);
                message.append("'\nAllowed arguments: ");
                let allowed = allowed_names_text(true);
                message.append(allowed.as_str());
                Err(AppError::InvalidCliArgument { message })
            },
        }
    }

    /// The line written for `text`: the transformed text and a line break.
    pub fn apply(&self, text: &str) -> (r: String)
        ensures
            r@ == transformed(self.method(), text@) + "\n"@,
    {
        let mut r = transform(self.method, text);
        r.append("\n");
        r
    }

    /// Whether lines are collected into a CSV table.
    pub fn is_csv(&self) -> (r: bool)
        ensures
            r == (self.method() == Transformation::Csv),
    {
        match self.method {
            Transformation::Csv => true,
            _ => false,
        }
    }
}

/// What to do with one line of input.
#[derive(Debug, Clone)]
pub enum LineOutcome {
    /// Write this text to the output and go on.
    Write(String),
    /// Write this text to the output and stop.
    Finish(String),
}

/// How a session collecting CSV answers a line other than `exit`: the
/// trimmed line goes into the table; nothing is written when the table takes
/// it, and the table's refusal ends the session otherwise.
pub open spec fn csv_line_response(
    before: CsvView,
    line: Seq<char>,
    after: CsvView,
    taken: Result<(), CsvError>,
    r: Result<LineOutcome, AppError>,
) -> bool {
    &&& line_taken(before, transformed(Transformation::Csv, trim(line)), after, taken)
    &&& match taken {
        Ok(()) => r matches Ok(LineOutcome::Write(t)) && t@ == Seq::<char>::empty(),
        Err(_) => r matches Err(AppError::OnOutput(m)) && m@ == "invalid number of columns"@,
    }
}

/// Transforms the lines of the input one by one until the line `exit`.
pub struct InputSession<'a> {
    transformer: TextTransformer<'a>,
    csv_table: CsvTable,
}

impl<'a> InputSession<'a> {
    /// The transformation applied.
    pub closed spec fn method(&self) -> Transformation {
        self.transformer.method
    }

    /// The table collected so far.
    pub closed spec fn table(&self) -> CsvView {
        self.csv_table@
    }

    /// The session's table agrees with itself.
    pub closed spec fn wf(&self) -> bool {
        self.csv_table.wf()
    }

    /// A session that applies `transformer`, with an empty table.
    pub fn new(transformer: TextTransformer<'a>) -> (r: Self)
        ensures
            r.wf(),
            r.method() == transformer.method(),
            r.table().header.len() == 0,
            r.table().rows.len() == 0,
    {
        InputSession { transformer, csv_table: CsvTable::new() }
    }

    /// What the user is told before the first line.
    pub fn prompt(&self) -> (r: String)
        ensures
            r@ == if self.method() == Transformation::Csv {
                "Provide fields delimited by ','. First row is CSV header. Every next row must have exact amount of fields specified by the header. Type 'exit' for yielding CSV table."@
            } else {
                "Provide your input. Type 'exit' for exiting the program."@
            },
    {
        if self.transformer.is_csv() {
            String::from_str(
                "Provide fields delimited by ','. First row is CSV header. Every next row must have exact amount of fields specified by the header. Type 'exit' for yielding CSV table.",
            )
        } else {
            String::from_str("Provide your input. Type 'exit' for exiting the program.")
        }
    }

    /// Whether the session can end: when collecting CSV, the table's rendered
    /// lines must not be wider than a `usize` counts.
    pub fn can_finish(&self) -> (r: bool)
        requires
            self.wf(),
        ensures
            r == (self.method() == Transformation::Csv && self.table().header.len() > 0
                ==> rule_width(self.table().widths) <= usize::MAX),
    {
        if self.transformer.is_csv() {
            self.csv_table.fits_rendering()
        } else {
            true
        }
    }

    /// Takes in one line of input. The line `exit` ends the session, with
    /// the table as the last output when collecting CSV. Any other line is
    /// trimmed and transformed: the result is written out, or taken into the
    /// table when collecting CSV; a line the table refuses ends the session
    /// with the table's error.
    pub fn on_line(&mut self, line: &str) -> (r: Result<LineOutcome, AppError>)
        requires
            old(self).wf(),
            line@ == "exit"@ && old(self).method() == Transformation::Csv && old(self).table().header.len()
                > 0 ==> rule_width(old(self).table().widths) <= usize::MAX,
        ensures
            final(self).wf(),
            final(self).method() == old(self).method(),
            line@ == "exit"@ ==> if old(self).method() == Transformation::Csv {
                r matches Ok(LineOutcome::Finish(t)) && t@ == table_text(old(self).table())
            } else {
                r matches Ok(LineOutcome::Finish(t)) && t@ == Seq::<char>::empty()
            },
            line@ != "exit"@ ==> if old(self).method() == Transformation::Csv {
                exists|e: Result<(), CsvError>| #[trigger] csv_line_response(
                    old(self).table(),
                    line@,
                    final(self).table(),
                    e,
                    r,
                )
            } else {
                r matches Ok(LineOutcome::Write(t)) && t@ == transformed(
                    old(self).method(),
                    trim(line@),
                ) + "\n"@ && final(self).table() == old(self).table()
            },
    {
        if str_equals(line, "exit") {
            if self.transformer.is_csv() {
                let text = self.csv_table.output_to();
                return Ok(LineOutcome::Finish(text));
            }
            return Ok(LineOutcome::Finish(String::new()));
        }
        let cs = chars_of(line);
        let t = trimmed(cs.as_slice());
        let input = string_of(t.as_slice());
        if self.transformer.is_csv() {
            let transformed_line = transform(self.transformer.method, input.as_str());
            let ghost before = self.csv_table@;
            match self.csv_table.write_text(transformed_line.as_str()) {
                Ok(()) => {},
                Err(e) => {
                    let ghost taken: Result<(), CsvError> = Err(e);
                    assert(line_taken(before, transformed_line@, self.csv_table@, taken));
                    let msg = e.message();
                    assert(msg@ == "invalid number of columns"@);
                    let r: Result<LineOutcome, AppError> = Err(AppError::OnOutput(msg));
                    assert(line_taken(
                        before,
                        transformed(Transformation::Csv, trim(line@)),
                        self.csv_table@,
                        taken,
                    ));
                    assert(csv_line_response(before, line@, self.csv_table@, taken, r));
                    assert(before == old(self).table());
                    assert(self.csv_table@ == self.table());
                    assert(csv_line_response(old(self).table(), line@, self.table(), taken, r));
                    return r;
                },
            }
            let ghost mid = self.csv_table@;
            assert(line_taken(before, transformed_line@, mid, Ok(())));
            let ended = self.csv_table.write_text("\n");
            proof {
                reveal_strlit("\n");
                assert("\n"@.len() == 1 && "\n"@[0] == '\n');
                assert(is_white_space('\n'));
                assert("\n"@.drop_first() =~= Seq::<char>::empty());
                assert(trim_start(Seq::<char>::empty()) == Seq::<char>::empty());
                assert(trim_start("\n"@) == Seq::<char>::empty());
                assert(trim("\n"@) == Seq::<char>::empty());
            }
            assert(self.csv_table@ == mid);
            let r: Result<LineOutcome, AppError> = Ok(LineOutcome::Write(String::new()));
            assert(csv_line_response(before, line@, self.csv_table@, Ok(()), r));
            assert(before == old(self).table());
            assert(self.csv_table@ == self.table());
            assert(csv_line_response(old(self).table(), line@, self.table(), Ok(()), r));
            r
        } else {
            Ok(LineOutcome::Write(self.transformer.apply(input.as_str())))
        }
    }
}

} // verus!
