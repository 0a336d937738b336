//! Sample tables that show what a table looks like.

use crate::data_table::{
    ColumnWidthConfig, StaticColumnWidths, Table, TableContents, TableInteractionState, TableRow,
};
use vstd::prelude::*;

verus! {

/// The color of a dot.
#[derive(Clone, Copy, Debug, PartialEq, Eq, Structural)]
pub enum DotColor {
    Success,
    Warning,
    Error,
}

/// What a sample cell shows.
#[derive(Debug, PartialEq, Eq)]
pub enum PreviewCell {
    Text(String),
    Dot(DotColor),
    /// A filled button as wide as its cell, with the words "View" on it.
    ViewButton(String),
}

/// What a [`PreviewCell`] says.
pub enum PreviewCellView {
    Text(Seq<char>),
    Dot(DotColor),
    ViewButton(Seq<char>),
}

impl View for PreviewCell {
    type V = PreviewCellView;

    open spec fn view(&self) -> PreviewCellView {
        match self {
            PreviewCell::Text(text) => PreviewCellView::Text(text@),
            PreviewCell::Dot(color) => PreviewCellView::Dot(*color),
            PreviewCell::ViewButton(id) => PreviewCellView::ViewButton(id@),
        }
    }
}

/// What cells say.
pub open spec fn cells(row: Seq<PreviewCell>) -> Seq<PreviewCellView> {
    Seq::new(row.len(), |i: int| row[i]@)
}

/// Cells with nothing but texts.
pub open spec fn text_cells(texts: Seq<Seq<char>>) -> Seq<PreviewCellView> {
    Seq::new(texts.len(), |i: int| PreviewCellView::Text(texts[i]))
}

/// What a row of the table of projects says.
pub open spec fn project_cells(
    color: DotColor,
    texts: Seq<Seq<char>>,
    button: Seq<char>,
) -> Seq<PreviewCellView> {
    seq![PreviewCellView::Dot(color)] + text_cells(texts) + seq![
        PreviewCellView::ViewButton(button),
    ]
}

/// What rows say.
pub open spec fn row_cells(rows: Seq<TableRow<PreviewCell>>) -> Seq<Seq<PreviewCellView>> {
    Seq::new(rows.len(), |i: int| cells(rows[i]@))
}

/// A sample table, whose width is in pixels.
#[derive(Debug)]
pub struct PreviewTable {
    pub title: String,
    pub table: Table<PreviewCell, u32>,
}

/// What the rows of a sample table say.
pub enum PreviewRowsView {
    Rows(Seq<Seq<PreviewCellView>>),
    UniformList { element_id: Seq<char>, row_count: nat },
    VariableRowHeightList { row_count: nat },
}

/// What a sample table shows, and how.
pub struct PreviewTableView {
    pub title: Seq<char>,
    pub cols: nat,
    pub striped: bool,
    pub show_row_borders: bool,
    pub show_row_hover: bool,
    pub header: Option<Seq<PreviewCellView>>,
    pub rows: PreviewRowsView,
    pub interaction_state: Option<TableInteractionState>,
    pub column_width_config: ColumnWidthConfig<u32>,
    pub maps_rows: bool,
    pub use_ui_font: bool,
    pub has_empty_message: bool,
    pub disable_base_cell_style: bool,
}

impl View for PreviewTable {
    type V = PreviewTableView;

    open spec fn view(&self) -> PreviewTableView {
        PreviewTableView {
            title: self.title@,
            cols: self.table.cols as nat,
            striped: self.table.striped,
            show_row_borders: self.table.show_row_borders,
            show_row_hover: self.table.show_row_hover,
            header: match self.table.headers {
                Some(headers) => Some(cells(headers@)),
                None => None,
            },
            rows: match self.table.rows {
                TableContents::Rows(rows) => PreviewRowsView::Rows(row_cells(rows@)),
                TableContents::UniformList { element_id, row_count } =>
                    PreviewRowsView::UniformList {
                        element_id: element_id@,
                        row_count: row_count as nat,
                    },
                TableContents::VariableRowHeightList { row_count } =>
                    PreviewRowsView::VariableRowHeightList { row_count: row_count as nat },
            },
            interaction_state: self.table.interaction_state,
            column_width_config: self.table.column_width_config,
            maps_rows: self.table.maps_rows,
            use_ui_font: self.table.use_ui_font,
            has_empty_message: self.table.has_empty_message,
            disable_base_cell_style: self.table.disable_base_cell_style,
        }
    }
}

/// A sample table: one that shares a width of so many pixels among its columns, and is else drawn
/// as any table is.
pub open spec fn sample(
    title: Seq<char>,
    cols: nat,
    width: u32,
    striped: bool,
    header: Seq<PreviewCellView>,
    rows: Seq<Seq<PreviewCellView>>,
) -> PreviewTableView {
    PreviewTableView {
        title,
        cols,
        striped,
        show_row_borders: true,
        show_row_hover: true,
        header: Some(header),
        rows: PreviewRowsView::Rows(rows),
        interaction_state: None,
        column_width_config: ColumnWidthConfig::Static {
            widths: StaticColumnWidths::Auto,
            table_width: Some(width),
        },
        maps_rows: false,
        use_ui_font: true,
        has_empty_message: false,
        disable_base_cell_style: false,
    }
}

/// Sample tables under a title.
#[derive(Debug)]
pub struct PreviewGroup {
    pub title: String,
    pub tables: Vec<PreviewTable>,
}

/// What a group of sample tables shows.
pub struct PreviewGroupView {
    pub title: Seq<char>,
    pub tables: Seq<PreviewTableView>,
}

impl View for PreviewGroup {
    type V = PreviewGroupView;

    open spec fn view(&self) -> PreviewGroupView {
        PreviewGroupView {
            title: self.title@,
            tables: Seq::new(self.tables@.len(), |i: int| self.tables@[i]@),
        }
    }
}

/// What is shown.
pub open spec fn previewed() -> Seq<PreviewGroupView> {
    seq![
        PreviewGroupView {
            title: "Basic Tables"@,
            tables: seq![
                sample(
                    "Simple Table"@,
                    3,
                    400u32,
                    false,
                    text_cells(seq!["Name"@, "Age"@, "City"@]),
                    seq![
                        text_cells(seq!["Alice"@, "28"@, "New York"@]),
                        text_cells(seq!["Bob"@, "32"@, "San Francisco"@]),
                        text_cells(seq!["Charlie"@, "25"@, "London"@]),
                    ],
                ),
                sample(
                    "Two Column Table"@,
                    2,
                    300u32,
                    false,
                    text_cells(seq!["Category"@, "Value"@]),
                    seq![
                        text_cells(seq!["Revenue"@, "$100,000"@]),
                        text_cells(seq!["Expenses"@, "$75,000"@]),
                        text_cells(seq!["Profit"@, "$25,000"@]),
                    ],
                ),
            ],
        },
        PreviewGroupView {
            title: "Styled Tables"@,
            tables: seq![
                sample(
                    "Default"@,
                    3,
                    400u32,
                    false,
                    text_cells(seq!["Product"@, "Price"@, "Stock"@]),
                    seq![
                        text_cells(seq!["Laptop"@, "$999"@, "In Stock"@]),
                        text_cells(seq!["Phone"@, "$599"@, "Low Stock"@]),
                        text_cells(seq!["Tablet"@, "$399"@, "Out of Stock"@]),
                    ],
                ),
                sample(
                    "Striped"@,
                    3,
                    400u32,
                    true,
                    text_cells(seq!["Product"@, "Price"@, "Stock"@]),
                    seq![
                        text_cells(seq!["Laptop"@, "$999"@, "In Stock"@]),
                        text_cells(seq!["Phone"@, "$599"@, "Low Stock"@]),
                        text_cells(seq!["Tablet"@, "$399"@, "Out of Stock"@]),
                        text_cells(seq!["Headphones"@, "$199"@, "In Stock"@]),
                    ],
                ),
            ],
        },
        PreviewGroupView {
            title: "Mixed Content Table"@,
            tables: seq![
                sample(
                    "Table with Elements"@,
                    5,
                    840u32,
                    false,
                    text_cells(seq!["Status"@, "Name"@, "Priority"@, "Deadline"@, "Action"@]),
                    seq![
                        project_cells(
                            DotColor::Success,
                            seq!["Project A"@, "High"@, "2023-12-31"@],
                            "view_a"@,
                        ),
                        project_cells(
                            DotColor::Warning,
                            seq!["Project B"@, "Medium"@, "2024-03-15"@],
                            "view_b"@,
                        ),
                        project_cells(
                            DotColor::Error,
                            seq!["Project C"@, "Low"@, "2024-06-30"@],
                            "view_c"@,
                        ),
                    ],
                ),
            ],
        },
    ]
}

fn text_cell(text: &str) -> (cell: PreviewCell)
    ensures
        cell@ == PreviewCellView::Text(text@),
{
    PreviewCell::Text(text.to_owned())
}

fn text_row2(first: &str, second: &str) -> (row: Vec<PreviewCell>)
    ensures
        row@.len() == 2,
        cells(row@) == text_cells(seq![first@, second@]),
{
    let row = vec![text_cell(first), text_cell(second)];
    assert(cells(row@) =~= text_cells(seq![first@, second@]));
    row
}

fn text_row3(first: &str, second: &str, third: &str) -> (row: Vec<PreviewCell>)
    ensures
        row@.len() == 3,
        cells(row@) == text_cells(seq![first@, second@, third@]),
{
    let row = vec![text_cell(first), text_cell(second), text_cell(third)];
    assert(cells(row@) =~= text_cells(seq![first@, second@, third@]));
    row
}

fn text_row5(first: &str, second: &str, third: &str, fourth: &str, fifth: &str) -> (row: Vec<
    PreviewCell,
>)
    ensures
        row@.len() == 5,
        cells(row@) == text_cells(seq![first@, second@, third@, fourth@, fifth@]),
{
    let row = vec![
        text_cell(first),
        text_cell(second),
        text_cell(third),
        text_cell(fourth),
        text_cell(fifth),
    ];
    assert(cells(row@) =~= text_cells(seq![first@, second@, third@, fourth@, fifth@]));
    row
}

fn project_row(color: DotColor, name: &str, priority: &str, deadline: &str, button: &str) -> (row:
    Vec<PreviewCell>)
    ensures
        row@.len() == 5,
        cells(row@) == project_cells(color, seq![name@, priority@, deadline@], button@),
{
    let row = vec![
        PreviewCell::Dot(color),
        text_cell(name),
        text_cell(priority),
        text_cell(deadline),
        PreviewCell::ViewButton(button.to_owned()),
    ];
    assert(cells(row@) =~= project_cells(color, seq![name@, priority@, deadline@], button@));
    row
}

fn preview_table(
    title: &str,
    cols: usize,
    width: u32,
    striped: bool,
    header: Vec<PreviewCell>,
    rows: Vec<Vec<PreviewCell>>,
) -> (shown: PreviewTable)
    requires
        header@.len() == cols,
        forall|i: int| 0 <= i < rows@.len() ==> (#[trigger] rows@[i])@.len() == cols,
    ensures
        shown.table.is_valid(),
        shown@ == sample(
            title@,
            cols as nat,
            width,
            striped,
            cells(header@),
            Seq::new(rows@.len(), |i: int| cells(rows@[i]@)),
        ),
{
    let ghost all = rows@;
    let mut left = rows;
    let mut table: Table<PreviewCell, u32> = Table::new(cols).width(width).header(header);
    if striped {
        table = table.striped();
    }
    let ghost start = table;
    let ghost mut done: int = 0;
    assert(all.skip(0) =~= all);
    while left.len() > 0
        invariant
            0 <= done <= all.len(),
            left@ == all.skip(done),
            table.is_valid(),
            table == (Table { rows: table.rows, ..start }),
            start.cols == cols,
            forall|i: int| 0 <= i < all.len() ==> (#[trigger] all[i])@.len() == cols,
            table.rows is Rows,
            table.rows->Rows_0@.len() == done,
            forall|i: int|
                0 <= i < done ==> (#[trigger] table.rows->Rows_0@[i])@ == all[i]@,
        decreases left@.len(),
    {
        let items = left.remove(0);
        assert(items == all[done]);
        assert(left@ =~= all.skip(done + 1));
        let ghost before = table.rows->Rows_0@;
        table = table.row(items);
        proof {
            let more = table.rows->Rows_0@;
            assert forall|i: int| 0 <= i < done + 1 implies (#[trigger] more[i])@ == all[i]@ by {
                if i < done {
                    assert(more[i] == more.drop_last()[i]);
                    assert(before[i]@ == all[i]@);
                }
            }
            done = done + 1;
        }
    }
    let shown = PreviewTable { title: title.to_owned(), table };
    assert(shown@.rows->Rows_0 =~= Seq::new(all.len(), |i: int| cells(all[i]@)));
    shown
}

/// Sample tables that show what a table looks like.
pub fn preview() -> (groups: Vec<PreviewGroup>)
    ensures
        groups@.len() == previewed().len(),
        forall|i: int| 0 <= i < groups@.len() ==> (#[trigger] groups@[i])@ == previewed()[i],
        forall|i: int, j: int|
            0 <= i < groups@.len() && 0 <= j < groups@[i].tables@.len() ==> (
            #[trigger] groups@[i].tables@[j]).table.is_valid(),
{
    let mut tables0: Vec<PreviewTable> = Vec::new();
    let mut rows: Vec<Vec<PreviewCell>> = Vec::new();
    rows.push(text_row3("Alice", "28", "New York"));
    rows.push(text_row3("Bob", "32", "San Francisco"));
    rows.push(text_row3("Charlie", "25", "London"));
    let table = preview_table(
        "Simple Table",
        3,
        400,
        false,
        text_row3("Name", "Age", "City"),
        rows,
    );
    assert(table@.rows->Rows_0 =~= previewed()[0].tables[0].rows->Rows_0);
    assert(table@ == previewed()[0].tables[0]);
    tables0.push(table);
    let mut rows: Vec<Vec<PreviewCell>> = Vec::new();
    rows.push(text_row2("Revenue", "$100,000"));
    rows.push(text_row2("Expenses", "$75,000"));
    rows.push(text_row2("Profit", "$25,000"));
    let table = preview_table(
        "Two Column Table",
        2,
        300,
        false,
        text_row2("Category", "Value"),
        rows,
    );
    assert(table@.rows->Rows_0 =~= previewed()[0].tables[1].rows->Rows_0);
    assert(table@ == previewed()[0].tables[1]);
    tables0.push(table);
    let group0 = PreviewGroup { title: "Basic Tables".to_owned(), tables: tables0 };
    assert(group0@.tables =~= previewed()[0].tables);
    let mut tables1: Vec<PreviewTable> = Vec::new();
    let mut rows: Vec<Vec<PreviewCell>> = Vec::new();
    rows.push(text_row3("Laptop", "$999", "In Stock"));
    rows.push(text_row3("Phone", "$599", "Low Stock"));
    rows.push(text_row3("Tablet", "$399", "Out of Stock"));
    let table = preview_table(
        "Default",
        3,
        400,
        false,
        text_row3("Product", "Price", "Stock"),
        rows,
    );
    assert(table@.rows->Rows_0 =~= previewed()[1].tables[0].rows->Rows_0);
    assert(table@ == previewed()[1].tables[0]);
    tables1.push(table);
    let mut rows: Vec<Vec<PreviewCell>> = Vec::new();
    rows.push(text_row3("Laptop", "$999", "In Stock"));
    rows.push(text_row3("Phone", "$599", "Low Stock"));
    rows.push(text_row3("Tablet", "$399", "Out of Stock"));
    rows.push(text_row3("Headphones", "$199", "In Stock"));
    let table = preview_table(
        "Striped",
        3,
        400,
        true,
        text_row3("Product", "Price", "Stock"),
        rows,
    );
    assert(table@.rows->Rows_0 =~= previewed()[1].tables[1].rows->Rows_0);
    assert(table@ == previewed()[1].tables[1]);
    tables1.push(table);
    let group1 = PreviewGroup { title: "Styled Tables".to_owned(), tables: tables1 };
    assert(group1@.tables =~= previewed()[1].tables);
    let mut tables2: Vec<PreviewTable> = Vec::new();
    let mut rows: Vec<Vec<PreviewCell>> = Vec::new();
    rows.push(project_row(DotColor::Success, "Project A", "High", "2023-12-31", "view_a"));
    rows.push(project_row(DotColor::Warning, "Project B", "Medium", "2024-03-15", "view_b"));
    rows.push(project_row(DotColor::Error, "Project C", "Low", "2024-06-30", "view_c"));
    let table = preview_table(
        "Table with Elements",
        5,
        840,
        false,
        text_row5("Status", "Name", "Priority", "Deadline", "Action"),
        rows,
    );
    assert(table@.rows->Rows_0 =~= previewed()[2].tables[0].rows->Rows_0);
    assert(table@ == previewed()[2].tables[0]);
    tables2.push(table);
    let group2 = PreviewGroup { title: "Mixed Content Table".to_owned(), tables: tables2 };
    assert(group2@.tables =~= previewed()[2].tables);
    vec![group0, group1, group2]
}

} // verus!
