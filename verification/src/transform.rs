//! Text transformations selected by name: lower or upper case, spaces
//! removed, slugs, screaming, reversal, and passing CSV through.

use vstd::prelude::*;
use crate::text::{
    chars_of, remove_spaces, reversed, str_equals, string_of, without_spaces,
};

verus! {

/// What `str::to_lowercase` returns for `s`: Unicode lower-case mapping.
pub uninterp spec fn lowercase_of(s: Seq<char>) -> Seq<char>;

/// What `str::to_uppercase` returns for `s`: Unicode upper-case mapping.
pub uninterp spec fn uppercase_of(s: Seq<char>) -> Seq<char>;

/// What `slug::slugify` returns for `s`.
pub uninterp spec fn slug_of(s: Seq<char>) -> Seq<char>;

/// A character that may appear in a slug: `a`-`z`, `0`-`9` or `-`.
pub open spec fn is_slug_char(c: char) -> bool {
    ||| 97 <= (c as u32) <= 122
    ||| 48 <= (c as u32) <= 57
    ||| c == '-'
}

/// `str::to_lowercase`; the result is named `lowercase_of`.
#[verifier::external_body]
fn to_lowercase(s: &str) -> (r: String)
    ensures
        r@ == lowercase_of(s@),
{
    s.to_lowercase()
}

/// `str::to_uppercase`; the result is named `uppercase_of`.
#[verifier::external_body]
fn to_uppercase(s: &str) -> (r: String)
    ensures
        r@ == uppercase_of(s@),
{
    s.to_uppercase()
}

/// `slug::slugify`; the result is named `slug_of`. As the crate documents,
/// a slug consists of `a`-`z`, `0`-`9` and `-`, never has two `-` in a row,
/// and never starts or ends with `-`.
#[verifier::external_body]
fn slugify(s: &str) -> (r: String)
    ensures
        r@ == slug_of(s@),
        forall|i: int| 0 <= i < r@.len() ==> is_slug_char(#[trigger] r@[i]),
        forall|i: int| 0 <= i < r@.len() - 1 ==> !(#[trigger] r@[i] == '-' && r@[i + 1] == '-'),
        r@.len() > 0 ==> r@[0] != '-' && r@.last() != '-',
{
    slug::slugify(s)
}

/// A transformation of a line of text.
#[derive(Debug, Clone, Copy, PartialEq, Eq, Structural)]
pub enum Transformation {
    Lowercase,
    Uppercase,
    NoSpaces,
    Slugify,
    Scream,
    Reverse,
    /// The text goes on unchanged; the rows of a CSV table are collected elsewhere.
    Csv,
}

/// The result of a transformation.
pub open spec fn transformed(t: Transformation, s: Seq<char>) -> Seq<char> {
    match t {
        Transformation::Lowercase => lowercase_of(s),
        Transformation::Uppercase => uppercase_of(s),
        Transformation::NoSpaces => without_spaces(s),
        Transformation::Slugify => slug_of(s),
        Transformation::Scream => s + "!!!"@,
        Transformation::Reverse => s.reverse(),
        Transformation::Csv => s,
    }
}

/// Applies a transformation to a line of text.
pub fn transform(t: Transformation, s: &str) -> (r: String)
    ensures
        r@ == transformed(t, s@),
{
    match t {
        Transformation::Lowercase => to_lowercase(s),
        Transformation::Uppercase => to_uppercase(s),
        Transformation::NoSpaces => {
            let cs = chars_of(s);
            let kept = remove_spaces(cs.as_slice());
            string_of(kept.as_slice())
        },
        Transformation::Slugify => slugify(s),
        Transformation::Scream => {
            let mut r = String::from_str(s);
            r.append("!!!");
            r
        },
        Transformation::Reverse => {
            let cs = chars_of(s);
            let back = reversed(cs.as_slice());
            string_of(back.as_slice())
        },
        Transformation::Csv => String::from_str(s),
    }
}

/// The name under which a transformation is selected.
pub open spec fn name_of(t: Transformation) -> Seq<char> {
    match t {
        Transformation::Lowercase => "lowercase"@,
        Transformation::Uppercase => "uppercase"@,
        Transformation::NoSpaces => "no-spaces"@,
        Transformation::Slugify => "slugify"@,
        Transformation::Scream => "scream"@,
        Transformation::Reverse => "reverse"@,
        Transformation::Csv => "csv"@,
    }
}

/// The transformation a name selects, among the six text transformations
/// and, where `with_csv`, the CSV one.
pub open spec fn selected(name: Seq<char>, with_csv: bool) -> Option<Transformation> {
    if name == "lowercase"@ {
        Some(Transformation::Lowercase)
    } else if name == "uppercase"@ {
        Some(Transformation::Uppercase)
    } else if name == "no-spaces"@ {
        Some(Transformation::NoSpaces)
    } else if name == "slugify"@ {
        Some(Transformation::Slugify)
    } else if name == "scream"@ {
        Some(Transformation::Scream)
    } else if name == "reverse"@ {
        Some(Transformation::Reverse)
    } else if with_csv && name == "csv"@ {
        Some(Transformation::Csv)
    } else {
        None
    }
}

/// Looks a transformation up by name.
pub fn select(name: &str, with_csv: bool) -> (r: Option<Transformation>)
    ensures
        r == selected(name@, with_csv),
{
    if str_equals(name, "lowercase") {
        Some(Transformation::Lowercase)
    } else if str_equals(name, "uppercase") {
        Some(Transformation::Uppercase)
    } else if str_equals(name, "no-spaces") {
        Some(Transformation::NoSpaces)
    } else if str_equals(name, "slugify") {
        Some(Transformation::Slugify)
    } else if str_equals(name, "scream") {
        Some(Transformation::Scream)
    } else if str_equals(name, "reverse") {
        Some(Transformation::Reverse)
    } else if with_csv && str_equals(name, "csv") {
        Some(Transformation::Csv)
    } else {
        None
    }
}

/// The names that select a transformation, joined by ` | `.
pub open spec fn allowed_names(with_csv: bool) -> Seq<char> {
    "lowercase | uppercase | no-spaces | slugify | scream | reverse"@ + if with_csv {
        " | csv"@
    } else {
        Seq::empty()
    }
}

/// The names that select a transformation, joined by ` | `.
pub fn allowed_names_text(with_csv: bool) -> (r: String)
    ensures
        r@ == allowed_names(with_csv),
{
    let mut r = String::from_str("lowercase | uppercase | no-spaces | slugify | scream | reverse");
    if with_csv {
        r.append(" | csv");
    } else {
        assert(r@ + Seq::<char>::empty() =~= r@);
    }
    r
}

/// A name selects the transformation that bears it.
pub proof fn lemma_selected_by_own_name(t: Transformation)
    ensures
        selected(name_of(t), true) == Some(t),
        t != Transformation::Csv ==> selected(name_of(t), false) == Some(t),
{
    reveal_strlit("lowercase");
    reveal_strlit("uppercase");
    reveal_strlit("no-spaces");
    reveal_strlit("slugify");
    reveal_strlit("scream");
    reveal_strlit("reverse");
    reveal_strlit("csv");
    let names = seq!["lowercase"@, "uppercase"@, "no-spaces"@, "slugify"@, "scream"@, "reverse"@, "csv"@];
    assert(names[0][0] == 'l' && names[1][0] == 'u' && names[2][0] == 'n' && names[3][1] == 'l'
        && names[4][1] == 'c' && names[5][0] == 'r' && names[6][0] == 'c');
    assert(names[3][0] == 's' && names[4][0] == 's');
    assert forall|i: int, j: int| 0 <= i < j < 7 implies #[trigger] names[i] != #[trigger] names[j] by {
        if names[i].len() == names[j].len() {
            if names[i][0] != names[j][0] {
                assert(names[i][0] != names[j][0]);
            } else {
                assert(names[i][1] != names[j][1]);
            }
        }
    }
    assert(names[0] != names[1]);
}

/// Reversing twice gives the text back.
pub proof fn lemma_reverse_twice(s: Seq<char>)
    ensures
        transformed(Transformation::Reverse, transformed(Transformation::Reverse, s)) == s,
{
    assert(s.reverse().reverse() =~= s);
}

/// Text without spaces has no spaces to remove.
pub proof fn lemma_no_spaces_idempotent(s: Seq<char>)
    ensures
        transformed(Transformation::NoSpaces, transformed(Transformation::NoSpaces, s))
            == transformed(Transformation::NoSpaces, s),
    decreases s.len(),
{
    if s.len() > 0 {
        lemma_no_spaces_idempotent(s.drop_last());
        let w = without_spaces(s.drop_last());
        if s.last() != ' ' {
            assert(w.push(s.last()).drop_last() =~= w);
        }
    }
}

/// Removing spaces leaves no space behind.
proof fn lemma_no_spaces_left(s: Seq<char>)
    ensures
        forall|i: int| 0 <= i < without_spaces(s).len() ==> without_spaces(s)[i] != ' ',
    decreases s.len(),
{
    if s.len() > 0 {
        lemma_no_spaces_left(s.drop_last());
        let w = without_spaces(s.drop_last());
        if s.last() != ' ' {
            assert forall|i: int| 0 <= i < w.push(s.last()).len() implies w.push(s.last())[i]
                != ' ' by {
                if i < w.len() {
                    assert(w.push(s.last())[i] == w[i]);
                }
            }
        }
    }
}

/// Text without spaces comes through removing spaces unchanged.
proof fn lemma_no_spaces_keeps(s: Seq<char>)
    requires
        forall|i: int| 0 <= i < s.len() ==> s[i] != ' ',
    ensures
        without_spaces(s) == s,
    decreases s.len(),
{
    if s.len() > 0 {
        lemma_no_spaces_keeps(s.drop_last());
        assert(s.drop_last().push(s.last()) =~= s);
    }
}

/// Each name selects the transformation that does what the name says, with
/// or without `csv` among the names: `lowercase` and `uppercase` change the
/// case, `no-spaces` leaves no space and keeps text without spaces as it is,
/// `slugify` makes a slug, `scream` appends `!!!`, `reverse` gives the
/// characters back to front, and `csv`, selected only where it is among the
/// names, passes the text through unchanged. Each transformation is named by
/// the word that selects it.
pub proof fn lemma_names_select_what_they_say(with_csv: bool, s: Seq<char>)
    ensures
        selected("lowercase"@, with_csv) == Some(Transformation::Lowercase),
        selected("uppercase"@, with_csv) == Some(Transformation::Uppercase),
        selected("no-spaces"@, with_csv) == Some(Transformation::NoSpaces),
        selected("slugify"@, with_csv) == Some(Transformation::Slugify),
        selected("scream"@, with_csv) == Some(Transformation::Scream),
        selected("reverse"@, with_csv) == Some(Transformation::Reverse),
        selected("csv"@, with_csv) == if with_csv {
            Some(Transformation::Csv)
        } else {
            None
        },
        name_of(Transformation::Lowercase) == "lowercase"@,
        name_of(Transformation::Uppercase) == "uppercase"@,
        name_of(Transformation::NoSpaces) == "no-spaces"@,
        name_of(Transformation::Slugify) == "slugify"@,
        name_of(Transformation::Scream) == "scream"@,
        name_of(Transformation::Reverse) == "reverse"@,
        name_of(Transformation::Csv) == "csv"@,
        transformed(Transformation::Lowercase, s) == lowercase_of(s),
        transformed(Transformation::Uppercase, s) == uppercase_of(s),
        forall|i: int|
            0 <= i < transformed(Transformation::NoSpaces, s).len() ==> #[trigger] transformed(
                Transformation::NoSpaces,
                s,
            )[i] != ' ',
        (forall|i: int| 0 <= i < s.len() ==> s[i] != ' ') ==> transformed(
            Transformation::NoSpaces,
            s,
        ) == s,
        transformed(Transformation::Slugify, s) == slug_of(s),
        transformed(Transformation::Scream, s) == s + seq!['!', '!', '!'],
        transformed(Transformation::Reverse, s).len() == s.len(),
        forall|i: int|
            0 <= i < s.len() ==> #[trigger] transformed(Transformation::Reverse, s)[i] == s[s.len()
                - 1 - i],
        transformed(Transformation::Csv, s) == s,
{
    lemma_selected_by_own_name(Transformation::Lowercase);
    lemma_selected_by_own_name(Transformation::Uppercase);
    lemma_selected_by_own_name(Transformation::NoSpaces);
    lemma_selected_by_own_name(Transformation::Slugify);
    lemma_selected_by_own_name(Transformation::Scream);
    lemma_selected_by_own_name(Transformation::Reverse);
    lemma_selected_by_own_name(Transformation::Csv);
    reveal_strlit("csv");
    reveal_strlit("lowercase");
    reveal_strlit("uppercase");
    reveal_strlit("no-spaces");
    reveal_strlit("slugify");
    reveal_strlit("scream");
    reveal_strlit("reverse");
    reveal_strlit("!!!");
    if !with_csv {
        assert(selected("csv"@, false) is None);
    }
    lemma_no_spaces_left(s);
    if forall|i: int| 0 <= i < s.len() ==> s[i] != ' ' {
        lemma_no_spaces_keeps(s);
    }
    assert("!!!"@ =~= seq!['!', '!', '!']);
}

} // verus!
