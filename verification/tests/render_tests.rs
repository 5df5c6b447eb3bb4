use parlor::RenderError;
use parlor::render;

#[test]
fn ink_takes_fill_character_by_column() {
    // Column 0 -> 'A', column 1 is negative space, column 2 -> 2 mod 2 -> 'A':
    // the column index selects the fill character, spaces included.
    assert_eq!(render("* *", "AB"), Ok(String::from("A A")));
    assert_eq!(render("* **", "AB"), Ok(String::from("A AB")));
}

#[test]
fn fill_cycles_over_long_rows() {
    assert_eq!(render("*****", "AB"), Ok(String::from("ABABA")));
    assert_eq!(render("****", "xyz"), Ok(String::from("xyzx")));
}

#[test]
fn same_column_pulls_same_fill_character_on_every_line() {
    // The column within each line selects the character, independent of the row.
    assert_eq!(render("* *\n***", "AB"), Ok(String::from("A A\nABA")));
    assert_eq!(render("**\n**\n**", "ab"), Ok(String::from("ab\nab\nab")));
}

#[test]
fn spaces_and_blank_lines_are_preserved() {
    assert_eq!(render("  \n**", "Z"), Ok(String::from("  \nZZ")));
    assert_eq!(render("", "AB"), Ok(String::from("")));
}

#[test]
fn any_ink_marker_is_drawn_over() {
    // '.' and '#' are ink just as '*' is; only spaces stay blank.
    assert_eq!(render(".#*", "ok!"), Ok(String::from("ok!")));
}

#[test]
fn empty_fill_text_is_a_reported_error() {
    assert_eq!(render("***", ""), Err(RenderError::EmptyFillText));
    assert_eq!(render("", ""), Err(RenderError::EmptyFillText));
}
