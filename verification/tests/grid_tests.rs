use cli_utils::GridDisplay;

fn strs(items: &[&str]) -> Vec<String> {
    items.iter().map(|s| s.to_string()).collect()
}

#[test]
fn empty_grid_renders_nothing() {
    let g = GridDisplay::empty();
    assert_eq!(g.render(), "");
}

#[test]
fn header_only_grid() {
    let g = GridDisplay::new(strs(&["a"]));
    assert_eq!(g.render(), "a  \n");
}

#[test]
fn header_grid_pads_to_widest_cell() {
    let mut g = GridDisplay::new(strs(&["ab", "c"]));
    g.add_row(strs(&["x", "yyy"]));
    g.add_row(strs(&["zz"]));
    assert_eq!(g.render(), "ab  c    \nx   yyy  \nzz  \n");
}

#[test]
fn set_header_replaces_header() {
    let mut g = GridDisplay::empty();
    g.set_header(strs(&["ab", "c"]));
    g.add_row(strs(&["x", "yyy"]));
    g.add_row(strs(&["zz"]));
    assert_eq!(g.render(), "ab  c    \nx   yyy  \nzz  \n");
}

#[test]
fn headerless_grid_takes_widths_from_first_row() {
    let mut g = GridDisplay::empty();
    g.add_row(strs(&["aa", "b"]));
    g.add_row(strs(&["c", "dddd", "e"]));
    assert_eq!(g.render(), "aa  b     \nc   dddd  e  \n");
}

#[test]
fn decorated_cells_pad_by_visible_width() {
    let mut g = GridDisplay::empty();
    g.add_row(strs(&["\x1B[31mred\x1B[0m", "x"]));
    assert_eq!(g.render(), "\x1B[31mred\x1B[0m  x  \n");
}
