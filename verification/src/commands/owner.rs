//! Replies of the owner's commands: query results as a table, items added
//! to the exploring pool, and coins given.
use vstd::prelude::*;
use crate::commands::economy::{tier_of_name, tier_named};
use crate::text::{signed_decimal, titlecase_of, title_case, i64_to_decimal, push_signed_decimal};
use crate::utils::{
    TabularData, cell_width, cell_fits, widths_after_rows, join_lines, table_lines,
    code_block_text, code_block, lemma_widths_after_rows_len,
};

verus! {

/// The rows of a query result as texts.
pub open spec fn rows_text(rows: Seq<Vec<String>>) -> Seq<Seq<Seq<char>>> {
    rows.map_values(|r: Vec<String>| r@.map_values(|s: String| s@))
}

/// The report of a query's result: a table with the result's column names
/// as header and its rows in order, inside a code block.
pub open spec fn query_report_text(columns: Seq<Seq<char>>, rows: Seq<Seq<Seq<char>>>) -> Seq<char> {
    code_block_text(
        join_lines(
            table_lines(
                columns,
                rows,
                widths_after_rows(columns.map_values(|c: Seq<char>| cell_width(c) as usize), rows),
            ),
        ),
    )
}

/// Renders the result of a query, given its column names and its rows of
/// text values, as a table inside a code block.
pub fn sql(columns: Vec<String>, rows: Vec<Vec<String>>) -> (s: String)
    requires
        forall|i: int| 0 <= i < columns@.len() ==> cell_fits(#[trigger] columns@[i]@),
        forall|r: int| 0 <= r < rows@.len() ==> (#[trigger] rows@[r])@.len() <= columns@.len(),
        forall|r: int, i: int|
            0 <= r < rows@.len() && 0 <= i < rows@[r]@.len() ==> cell_fits(#[trigger] rows@[r]@[i]@),
    ensures
        s@ == query_report_text(columns@.map_values(|c: String| c@), rows_text(rows@)),
{
    let ghost cols = columns@.map_values(|c: String| c@);
    let ghost start = cols.map_values(|c: Seq<char>| cell_width(c) as usize);
    let ghost all_rows = rows@;
    let mut table = TabularData::new();
    table.set_columns(columns);
    assert(table.widths_view() =~= start);
    assert(rows_text(all_rows.take(0)) =~= Seq::<Seq<Seq<char>>>::empty());
    assert(table.rows_view() =~= rows_text(all_rows.take(0)));
    let mut rows = rows;
    let n = rows.len();
    while rows.len() > 0
        invariant
            rows@.len() <= n,
            n == all_rows.len(),
            forall|k: int| 0 <= k < rows@.len() ==> rows@[k] == all_rows[n - rows@.len() + k],
            forall|r: int| 0 <= r < all_rows.len() ==> (#[trigger] all_rows[r])@.len() <= cols.len(),
            forall|r: int, k: int|
                0 <= r < all_rows.len() && 0 <= k < all_rows[r]@.len() ==> cell_fits(
                    #[trigger] all_rows[r]@[k]@,
                ),
            start == cols.map_values(|c: Seq<char>| cell_width(c) as usize),
            table.columns_view() == cols,
            table.rows_view() == rows_text(all_rows.take(n - rows@.len())),
            table.widths_view() == widths_after_rows(start, rows_text(all_rows.take(n - rows@.len()))),
        decreases rows@.len(),
    {
        let row = rows.remove(0);
        let ghost done = n - rows@.len() - 1;
        assert(row == all_rows[done]);
        proof {
            lemma_widths_after_rows_len(start, rows_text(all_rows.take(done)));
        }
        table.add_row(row);
        assert(all_rows.take(done + 1).drop_last() =~= all_rows.take(done));
        assert(rows_text(all_rows.take(done + 1)) =~= rows_text(all_rows.take(done)).push(
            all_rows[done]@.map_values(|s: String| s@),
        ));
        assert(rows_text(all_rows.take(done + 1)).drop_last() =~= rows_text(all_rows.take(done)));
    }
    assert(all_rows.take(n as int) =~= all_rows);
    let rendered = table.render();
    code_block(rendered.as_str())
}

/// A named field of a chat card.
pub struct CardField {
    pub name: String,
    pub value: String,
}

/// The fields of the card that confirms an item added to the exploring
/// pool: its name and tier title-cased, its emoji and its price.
pub open spec fn item_added_text(
    name: Seq<char>,
    tier: Seq<char>,
    emoji: Seq<char>,
    price: i64,
) -> Seq<(Seq<char>, Seq<char>)> {
    seq![
        ("Name"@, titlecase_of(name)),
        ("Tier"@, titlecase_of(tier)),
        ("Emoji"@, emoji),
        ("Price"@, signed_decimal(price as int)),
    ]
}

/// The reply when an item is to be added under a tier that exploring
/// never draws.
pub open spec fn unknown_tier_text(tier: Seq<char>) -> Seq<char> {
    "Unknown tier "@ + tier + ": an item's tier must be common, rare or legendary"@
}

/// Adds an item to the exploring pool, which will be obtainable through
/// exploring: its tier must name one that exploring draws (`common`,
/// `rare` or `legendary`), else the item is refused with a message saying
/// so. For an accepted item, the fields of the card that confirms it, for
/// its name, tier, emoji markup and selling price.
pub fn additem(name: &str, tier: &str, emoji: &str, price: i64) -> (r: Result<Vec<CardField>, String>)
    ensures
        r is Ok <==> tier_of_name(tier@) is Some,
        r matches Err(message) ==> message@ == unknown_tier_text(tier@),
        r matches Ok(fields) ==> fields@.map_values(|f: CardField| (f.name@, f.value@))
            == item_added_text(name@, tier@, emoji@, price),
{
    if tier_named(tier).is_none() {
        let mut message = String::from_str("Unknown tier ");
        message.append(tier);
        message.append(": an item's tier must be common, rare or legendary");
        return Err(message);
    }
    let mut fields: Vec<CardField> = Vec::new();
    fields.push(CardField { name: String::from_str("Name"), value: title_case(name) });
    fields.push(CardField { name: String::from_str("Tier"), value: title_case(tier) });
    fields.push(CardField { name: String::from_str("Emoji"), value: String::from_str(emoji) });
    fields.push(CardField { name: String::from_str("Price"), value: i64_to_decimal(price) });
    assert(fields@.map_values(|f: CardField| (f.name@, f.value@)) =~= item_added_text(
        name@,
        tier@,
        emoji@,
        price,
    ));
    Ok(fields)
}

/// The reply after coins were given to a member.
pub open spec fn give_reply_text(display_name: Seq<char>, amount: i64) -> Seq<char> {
    "Gave "@ + display_name + " "@ + signed_decimal(amount as int)
        + " <:coin:1119247275093413940>"@
}

/// The reply after `amount` coins were given to the member shown as
/// `display_name`.
pub fn give(display_name: &str, amount: i64) -> (s: String)
    ensures
        s@ == give_reply_text(display_name@, amount),
{
    let mut s = String::from_str("Gave ");
    s.append(display_name);
    s.append(" ");
    push_signed_decimal(&mut s, amount);
    s.append(" <:coin:1119247275093413940>");
    s
}

} // verus!
