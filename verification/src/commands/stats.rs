//! Command usage statistics and the bot's health report.
use vstd::prelude::*;
use num_format::ToFormattedString;
use crate::database::Command;
use crate::text::{
    decimal, digit_char, signed_decimal, i64_to_decimal, push_decimal, parse_decimal_i64,
    law_parse_reads_back_decimal,
};
use crate::utils::{
    TabularData, cell_width, cell_fits, widths_after_rows, join_lines, table_lines,
    code_block_text, code_block, lemma_signed_decimal_fits,
};

verus! {

/// The header of the usage table.
pub open spec fn usage_columns() -> Seq<Seq<char>> {
    seq!["command"@, "author"@]
}

/// The row of the usage table for one command that was run: its name and
/// the author's id.
pub open spec fn usage_row(c: Command) -> Seq<Seq<char>> {
    seq![c.command@, signed_decimal(c.author_id as int)]
}

/// The rows of the usage table.
pub open spec fn usage_rows(commands: Seq<Command>) -> Seq<Seq<Seq<char>>> {
    commands.map_values(|c: Command| usage_row(c))
}

/// The column widths of the usage table.
pub open spec fn usage_widths(commands: Seq<Command>) -> Seq<usize> {
    widths_after_rows(
        usage_columns().map_values(|c: Seq<char>| cell_width(c) as usize),
        usage_rows(commands),
    )
}

/// Law: each row of the usage table holds the command's name and a text
/// that reads back as its author's whole id.
pub proof fn law_usage_row_reads_back_author(commands: Seq<Command>, r: int)
    requires
        0 <= r < commands.len(),
    ensures
        usage_rows(commands)[r].len() == 2,
        usage_rows(commands)[r][0] == commands[r].command@,
        parse_decimal_i64(usage_rows(commands)[r][1]) == Some(commands[r].author_id),
{
    law_parse_reads_back_decimal(commands[r].author_id);
}

/// A table of the commands that were run: the command and its author, one
/// row each, in the order given.
pub fn usage_table(commands: &Vec<Command>) -> (t: TabularData)
    requires
        forall|i: int| 0 <= i < commands@.len() ==> cell_fits(#[trigger] commands@[i].command@),
    ensures
        t.columns_view() == usage_columns(),
        t.rows_view() == usage_rows(commands@),
        t.widths_view() == usage_widths(commands@),
{
    let mut table = TabularData::new();
    let mut header: Vec<String> = Vec::new();
    header.push(String::from_str("command"));
    header.push(String::from_str("author"));
    proof {
        reveal_strlit("command");
        reveal_strlit("author");
        lemma_fits_short(header@[0]@);
        lemma_fits_short(header@[1]@);
    }
    table.set_columns(header);
    assert(table.columns_view() =~= usage_columns());
    let ghost start = usage_columns().map_values(|c: Seq<char>| cell_width(c) as usize);
    assert(table.widths_view() =~= start);
    assert(table.rows_view() =~= Seq::<Seq<Seq<char>>>::empty());
    assert(usage_rows(commands@.take(0)) =~= Seq::<Seq<Seq<char>>>::empty());
    for i in 0..commands.len()
        invariant
            forall|j: int| 0 <= j < commands@.len() ==> cell_fits(#[trigger] commands@[j].command@),
            start == usage_columns().map_values(|c: Seq<char>| cell_width(c) as usize),
            table.columns_view() == usage_columns(),
            table.rows_view() == usage_rows(commands@.take(i as int)),
            table.widths_view() == widths_after_rows(start, usage_rows(commands@.take(i as int))),
    {
        let c = &commands[i];
        let mut row: Vec<String> = Vec::new();
        row.push(c.command.clone());
        row.push(i64_to_decimal(c.author_id));
        proof {
            lemma_signed_decimal_fits(c.author_id);
            crate::utils::lemma_widths_after_rows_len(start, usage_rows(commands@.take(i as int)));
            assert(cell_fits(commands@[i as int].command@));
        }
        assert(row@.map_values(|s: String| s@) =~= usage_row(*c));
        table.add_row(row);
        assert(commands@.take(i + 1).drop_last() =~= commands@.take(i as int));
        assert(usage_rows(commands@.take(i + 1)) =~= usage_rows(commands@.take(i as int)).push(
            usage_row(commands@[i as int]),
        ));
        assert(usage_rows(commands@.take(i + 1)).drop_last() =~= usage_rows(commands@.take(i as int)));
    }
    assert(commands@.take(commands@.len() as int) =~= commands@);
    table
}

/// A short text fits in a table cell.
proof fn lemma_fits_short(s: Seq<char>)
    requires
        s.len() <= 1000,
    ensures
        cell_fits(s),
{
    crate::utils::lemma_utf8_len_at_most_four_per_char(s);
}

/// The usage report: the usage table rendered inside a code block.
pub fn all(commands: &Vec<Command>) -> (s: String)
    requires
        forall|i: int| 0 <= i < commands@.len() ==> cell_fits(#[trigger] commands@[i].command@),
    ensures
        s@ == code_block_text(
            join_lines(table_lines(usage_columns(), usage_rows(commands@), usage_widths(commands@))),
        ),
{
    let table = usage_table(commands);
    let rendered = table.render();
    code_block(rendered.as_str())
}

/// The three digits of a number below a thousand, with leading zeros.
pub open spec fn three_digits(r: nat) -> Seq<char> {
    seq![digit_char(r / 100), digit_char((r / 10) % 10), digit_char(r % 10)]
}

/// A number in decimal with its digits grouped in threes from the right,
/// separated by commas (`12,345,678`), as English writes it.
pub open spec fn grouped_decimal(n: nat) -> Seq<char>
    decreases n,
{
    if n < 1000 {
        decimal(n)
    } else {
        grouped_decimal(n / 1000) + seq![','] + three_digits(n % 1000)
    }
}

/// Writes a number with its digits grouped in threes by commas.
///
/// Trusted: `ToFormattedString::to_formatted_string` of `num-format` 0.4
/// with `Locale::en`, whose separator is `,` and whose grouping is
/// `Standard` (documented as groups of three, e.g. `10,000,000`); a `u64`
/// has no sign to write.
#[verifier::external_body]
fn to_grouped_string(n: u64) -> (s: String)
    ensures
        s@ == grouped_decimal(n as nat),
{
    n.to_formatted_string(&num_format::Locale::en)
}

/// The memory that the bot uses, given in bytes, as whole mebibytes with
/// the digits grouped by commas.
pub fn memory_megabytes(memory_bytes: u64) -> (s: String)
    ensures
        s@ == grouped_decimal((memory_bytes / 1024 / 1024) as nat),
{
    to_grouped_string(memory_bytes / 1024 / 1024)
}

/// `true` or `false`, as `Display` writes a `bool`.
pub open spec fn bool_text(b: bool) -> Seq<char> {
    if b {
        "true"@
    } else {
        "false"@
    }
}

/// The database pool's part of the health report.
pub open spec fn pool_report_text(size: u32, idle: usize, closed: bool) -> Seq<char> {
    "Connections: "@ + decimal(size as nat) + "\nConnections Idle: "@ + decimal(idle as nat)
        + "\nPool Closed: "@ + bool_text(closed)
}

/// The database pool's part of the health report: its connections, how
/// many of them are idle, and whether it is closed.
pub fn pool_report(size: u32, idle: usize, closed: bool) -> (s: String)
    ensures
        s@ == pool_report_text(size, idle, closed),
{
    let mut s = String::from_str("Connections: ");
    push_decimal(&mut s, size as u64);
    s.append("\nConnections Idle: ");
    push_decimal(&mut s, idle as u64);
    s.append("\nPool Closed: ");
    if closed {
        s.append("true");
    } else {
        s.append("false");
    }
    s
}

} // verus!
