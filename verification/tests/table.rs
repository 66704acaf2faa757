use econ_bot::utils::{divmod, TabularData};

fn strings(items: &[&str]) -> Vec<String> {
    items.iter().map(|s| s.to_string()).collect()
}

#[test]
fn render_matches_documented_example() {
    let mut t = TabularData::new();
    t.set_columns(strings(&["Name", "Age"]));
    t.add_row(strings(&["Alice", "24"]));
    t.add_row(strings(&["Bob", "19"]));
    let expected = "+-------+-----+\n| Name  | Age |\n+-------+-----+\n| Alice | 24  |\n|  Bob  | 19  |\n+-------+-----+";
    assert_eq!(t.render(), expected);
}

#[test]
fn empty_table_renders_rules_and_empty_header() {
    let t = TabularData::new();
    assert_eq!(t.render(), "+\n||\n+\n+");
}

#[test]
fn widths_count_bytes_while_centering_counts_chars() {
    // "é" is two bytes: the column is four wide, the cell is one character.
    let mut t = TabularData::new();
    t.set_columns(strings(&["é"]));
    assert_eq!(t.render(), "+----+\n| é  |\n+----+\n+----+");
}

#[test]
fn short_rows_are_drawn_with_fewer_cells() {
    let mut t = TabularData::new();
    t.set_columns(strings(&["a", "b"]));
    t.add_row(strings(&["x"]));
    assert_eq!(t.render(), "+---+---+\n| a | b |\n+---+---+\n| x |\n+---+---+");
}

#[test]
fn set_columns_keeps_rows_and_resets_widths() {
    let mut t = TabularData::new();
    t.set_columns(strings(&["a"]));
    t.add_row(strings(&["wide"]));
    t.set_columns(strings(&["b"]));
    assert_eq!(t.render(), "+---+\n| b |\n+---+\n|wide|\n+---+");
}

#[test]
fn every_line_has_the_same_length() {
    let mut t = TabularData::new();
    t.set_columns(strings(&["command", "author"]));
    t.add_row(strings(&["help", "123456789012345678"]));
    t.add_row(strings(&["balance", "-5"]));
    let rendered = t.render();
    let lengths: Vec<usize> = rendered.split('\n').map(|l| l.chars().count()).collect();
    assert_eq!(lengths.len(), 6);
    assert!(lengths.iter().all(|&l| l == lengths[0]));
}

#[test]
fn divmod_splits_quotient_and_remainder() {
    assert_eq!(divmod(7265, 3600), (2, 65));
    assert_eq!(divmod(65, 60), (1, 5));
    assert_eq!(divmod(0, 60), (0, 0));
}

#[test]
fn every_cell_has_a_space_on_each_side() {
    let mut t = TabularData::new();
    t.set_columns(strings(&["id", "name"]));
    t.add_row(strings(&["1", "aé"]));
    t.add_row(strings(&["12345", "b"]));
    let rendered = t.render();
    for line in rendered.split('\n').filter(|l| l.starts_with('|')) {
        let cells: Vec<&str> = line[1..line.len() - 1].split('|').collect();
        assert_eq!(cells.len(), 2);
        for c in cells {
            assert!(c.starts_with(' ') && c.ends_with(' '), "{:?}", c);
        }
    }
}
