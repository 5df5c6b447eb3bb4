//! The pattern text renderer: a multi-line glyph template is drawn with the
//! characters of a fill text.  Spaces and line breaks of the template are
//! kept; every other template character is an "ink" marker and is replaced
//! by the fill character selected by the column within the line, cycling the
//! fill text by index modulo its length.  The same column therefore pulls
//! the same fill character on every line.

use vstd::prelude::*;
use vstd::string::StrSliceExecFns;
use crate::errors::RenderError;
use crate::strbuf::push_char;

verus! {

/// The column of position `i` within its line: the number of characters
/// since the last line break.
pub open spec fn column_of(t: Seq<char>, i: int) -> nat
    decreases i,
{
    if i <= 0 {
        0
    } else if t[i - 1] == '\n' {
        0
    } else {
        column_of(t, i - 1) + 1
    }
}

/// What position `i` of the template renders to with the given fill text.
pub open spec fn rendered_char(t: Seq<char>, fill: Seq<char>, i: int) -> char {
    if t[i] == '\n' {
        '\n'
    } else if t[i] == ' ' {
        ' '
    } else {
        fill[column_of(t, i) as int % fill.len() as int]
    }
}

/// Draw the template with the fill text.  Fails only on an empty fill text,
/// which would leave no character to draw with.
pub fn render(template: &str, fill_text: &str) -> (r: Result<String, RenderError>)
    ensures
        fill_text@.len() == 0 ==> r == Err::<String, RenderError>(RenderError::EmptyFillText),
        fill_text@.len() > 0 ==> (r matches Ok(out) && out@.len() == template@.len() && forall|
            i: int,
        |
            0 <= i < template@.len() ==> out@[i] == rendered_char(template@, fill_text@, i)),
{
    let flen: usize = fill_text.unicode_len();
    if flen == 0 {
        return Err(RenderError::EmptyFillText);
    }
    let tlen: usize = template.unicode_len();
    let mut out = String::new();
    let mut col: usize = 0;
    let mut i: usize = 0;
    while i < tlen
        invariant
            i <= tlen,
            col <= i,
            tlen == template@.len(),
            flen == fill_text@.len(),
            flen > 0,
            col == column_of(template@, i as int),
            out@.len() == i,
            forall|k: int| 0 <= k < i ==> out@[k] == rendered_char(template@, fill_text@, k),
        decreases tlen - i,
    {
        let c = template.get_char(i);
        if c == '\n' {
            push_char(&mut out, '\n');
            col = 0;
        } else if c == ' ' {
            push_char(&mut out, ' ');
            col += 1;
        } else {
            let fc = fill_text.get_char(col % flen);
            push_char(&mut out, fc);
            col += 1;
        }
        i += 1;
    }
    Ok(out)
}

} // verus!
