//! A table of rows and columns: what it holds, and how it is laid out.
//!
//! Elements and lengths are the caller's business. A length is only carried about here; what
//! takes arithmetic on lengths is done where they are known.

use crate::text;
use vstd::prelude::*;

verus! {

/// A row with as many cells as the table has columns.
#[derive(Debug, PartialEq, Eq)]
pub struct TableRow<T> {
    cells: Vec<T>,
}

impl<T> TableRow<T> {
    /// The cells of the row.
    pub closed spec fn view(&self) -> Seq<T> {
        self.cells@
    }

    /// A row of a table with so many columns.
    pub fn new(cells: Vec<T>, cols: usize) -> (row: Self)
        requires
            cells@.len() == cols,
        ensures
            row@ == cells@,
    {
        TableRow { cells }
    }

    /// A row of a table with so many columns, if there are that many cells.
    pub fn checked(cells: Vec<T>, cols: usize) -> (row: Option<Self>)
        ensures
            row is Some == (cells@.len() == cols),
            row matches Some(row) ==> row@ == cells@,
    {
        if cells.len() == cols {
            Some(TableRow { cells })
        } else {
            None
        }
    }

    /// How many cells the row has.
    pub fn cols(&self) -> (cols: usize)
        ensures
            cols == self@.len(),
    {
        self.cells.len()
    }

    /// The cell with the given number.
    pub fn cell(&self, at: usize) -> (cell: &T)
        requires
            at < self@.len(),
        ensures
            *cell == self@[at as int],
    {
        &self.cells[at]
    }

    /// The cells of the row.
    pub fn into_vec(self) -> (cells: Vec<T>)
        ensures
            cells@ == self@,
    {
        self.cells
    }

    fn set(&mut self, at: usize, cell: T)
        requires
            at < old(self)@.len(),
        ensures
            final(self)@ == old(self)@.update(at as int, cell),
    {
        self.cells[at] = cell;
    }
}

fn copied_row<T: Copy>(row: &TableRow<T>) -> (copy: TableRow<T>)
    ensures
        copy@ == row@,
{
    let mut cells: Vec<T> = Vec::new();
    let mut at: usize = 0;
    while at < row.cells.len()
        invariant
            at <= row.cells@.len(),
            cells@ == row.cells@.take(at as int),
        decreases row.cells@.len() - at,
    {
        cells.push(row.cells[at]);
        at = at + 1;
        assert(cells@ =~= row.cells@.take(at as int));
    }
    assert(row.cells@.take(at as int) =~= row.cells@);
    TableRow { cells }
}

/// How a column can be resized.
#[derive(Clone, Copy, Debug, PartialEq, Eq, Structural)]
pub enum TableResizeBehavior {
    /// Not at all.
    Fixed,
    /// To any width.
    Resizable,
    /// To any width from this one on: a multiple of the font size, by the bits of its single
    /// precision form.
    MinSize { rem_bits: u32 },
}

impl TableResizeBehavior {
    /// Whether the column can be resized.
    pub fn is_resizable(&self) -> (resizable: bool)
        ensures
            resizable == !(*self is Fixed),
    {
        match self {
            TableResizeBehavior::Fixed => false,
            _ => true,
        }
    }

    /// The smallest width that the column may get.
    pub fn min_size(&self) -> (rem_bits: Option<u32>)
        ensures
            rem_bits == (match *self {
                TableResizeBehavior::MinSize { rem_bits } => Some(rem_bits),
                _ => None,
            }),
    {
        match self {
            TableResizeBehavior::MinSize { rem_bits } => Some(*rem_bits),
            _ => None,
        }
    }
}

/// Columns that are resized one by one, as in a spreadsheet: a column that gets wider makes the
/// whole table wider.
#[derive(Debug)]
pub struct ResizableColumnsState<W> {
    initial_widths: TableRow<W>,
    widths: TableRow<W>,
    resize_behavior: TableRow<TableResizeBehavior>,
}

/// What a [`ResizableColumnsState`] holds.
pub struct ResizableColumnsView<W> {
    pub initial_widths: Seq<W>,
    pub widths: Seq<W>,
    pub resize_behavior: Seq<TableResizeBehavior>,
}

impl<W> ResizableColumnsView<W> {
    /// Whether every column has both widths and a behavior.
    pub open spec fn is_valid(self) -> bool {
        self.initial_widths.len() == self.widths.len() && self.resize_behavior.len()
            == self.widths.len()
    }

    /// After a column got another width.
    pub open spec fn resized(self, col: int, width: W) -> ResizableColumnsView<W> {
        ResizableColumnsView { widths: self.widths.update(col, width), ..self }
    }

    /// After a column got back the width it had at first.
    pub open spec fn reset(self, col: int) -> ResizableColumnsView<W> {
        self.resized(col, self.initial_widths[col])
    }
}

impl<W: Copy> ResizableColumnsState<W> {
    /// What the state holds.
    pub closed spec fn view(&self) -> ResizableColumnsView<W> {
        ResizableColumnsView {
            initial_widths: self.initial_widths@,
            widths: self.widths@,
            resize_behavior: self.resize_behavior@,
        }
    }

    /// Columns with the given widths.
    pub fn new(
        cols: usize,
        initial_widths: Vec<W>,
        resize_behavior: Vec<TableResizeBehavior>,
    ) -> (state: Self)
        requires
            initial_widths@.len() == cols,
            resize_behavior@.len() == cols,
        ensures
            state@ == (ResizableColumnsView {
                initial_widths: initial_widths@,
                widths: initial_widths@,
                resize_behavior: resize_behavior@,
            }),
            state@.is_valid(),
    {
        let widths = TableRow::new(initial_widths, cols);
        ResizableColumnsState {
            initial_widths: copied_row(&widths),
            widths,
            resize_behavior: TableRow::new(resize_behavior, cols),
        }
    }

    /// How many columns there are.
    pub fn cols(&self) -> (cols: usize)
        ensures
            cols == self@.widths.len(),
    {
        self.widths.cols()
    }

    /// Whether every column has both widths and a behavior.
    pub fn is_complete(&self) -> (complete: bool)
        ensures
            complete == self@.is_valid(),
    {
        self.initial_widths.cols() == self.widths.cols() && self.resize_behavior.cols()
            == self.widths.cols()
    }

    /// How each column can be resized.
    pub fn resize_behavior(&self) -> (behavior: &TableRow<TableResizeBehavior>)
        ensures
            behavior@ == self@.resize_behavior,
    {
        &self.resize_behavior
    }

    /// The widths of the columns.
    pub fn widths(&self) -> (widths: &TableRow<W>)
        ensures
            widths@ == self@.widths,
    {
        &self.widths
    }

    /// Gives a column another width, which no other column notices.
    pub fn resize(&mut self, col_idx: usize, width: W)
        requires
            old(self)@.is_valid(),
            col_idx < old(self)@.widths.len(),
        ensures
            final(self)@ == old(self)@.resized(col_idx as int, width),
            final(self)@.is_valid(),
    {
        self.widths.set(col_idx, width);
    }

    /// Gives a column back the width it had at first.
    pub fn on_double_click(&mut self, col_idx: usize)
        requires
            old(self)@.is_valid(),
            col_idx < old(self)@.widths.len(),
        ensures
            final(self)@ == old(self)@.reset(col_idx as int),
            final(self)@.is_valid(),
    {
        let width = *self.initial_widths.cell(col_idx);
        self.widths.set(col_idx, width);
    }
}

/// Resizing one column leaves the others alone, and resetting it undoes any resizing of it.
pub proof fn columns_are_resized_alone<W>(
    state: ResizableColumnsView<W>,
    col: int,
    other: int,
    width: W,
)
    requires
        state.is_valid(),
        0 <= col < state.widths.len(),
        0 <= other < state.widths.len(),
        other != col,
    ensures
        state.resized(col, width).widths[col] == width,
        state.resized(col, width).widths[other] == state.widths[other],
        state.resized(col, width).reset(col) == state.reset(col),
        state.resized(col, width).is_valid(),
{
    assert(state.resized(col, width).reset(col).widths =~= state.reset(col).widths);
}

/// Columns that share the width of the table among them: what is known of them here is what
/// there is to draw.
#[derive(Debug)]
pub struct RedistributableColumns<W> {
    pub widths: TableRow<W>,
    pub resize_behavior: TableRow<TableResizeBehavior>,
}

/// The widths of columns that are not resized.
#[derive(Debug)]
pub enum StaticColumnWidths<W> {
    /// All columns share the space equally.
    Auto,
    /// Each column has a width of its own.
    Explicit(TableRow<W>),
}

/// How wide the columns of a table are.
#[derive(Debug)]
pub enum ColumnWidthConfig<W> {
    /// The columns are not resized.
    Static { widths: StaticColumnWidths<W>, table_width: Option<W> },
    /// Resizing a column takes from its neighbors, and the table keeps its width.
    Redistributable { columns_state: RedistributableColumns<W>, table_width: Option<W> },
    /// Columns are resized one by one, and the width of the table changes with them.
    Resizable(ResizableColumnsState<W>),
}

/// How the rows of a list find their width.
#[derive(Clone, Copy, Debug, PartialEq, Eq, Structural)]
pub enum ListHorizontalSizing {
    /// From the list.
    FitList,
    /// From themselves.
    Unconstrained,
}

impl<W: Copy> ColumnWidthConfig<W> {
    /// Columns that share the space of a table as wide as it may be.
    pub fn auto() -> (config: Self)
        ensures
            config == (ColumnWidthConfig::<W>::Static {
                widths: StaticColumnWidths::Auto,
                table_width: None,
            }),
    {
        ColumnWidthConfig::Static { widths: StaticColumnWidths::Auto, table_width: None }
    }

    /// Columns that share the width of the table among them, however wide it is.
    pub fn redistributable(columns_state: RedistributableColumns<W>) -> (config: Self)
        ensures
            config == (ColumnWidthConfig::Redistributable { columns_state, table_width: None }),
    {
        ColumnWidthConfig::Redistributable { columns_state, table_width: None }
    }

    /// Columns that share the space of a table of the given width.
    pub fn auto_with_table_width(width: W) -> (config: Self)
        ensures
            config == (ColumnWidthConfig::Static {
                widths: StaticColumnWidths::Auto,
                table_width: Some(width),
            }),
    {
        ColumnWidthConfig::Static { widths: StaticColumnWidths::Auto, table_width: Some(width) }
    }

    /// Columns with the given widths.
    pub fn explicit(widths: Vec<W>) -> (config: Self)
        ensures
            config matches ColumnWidthConfig::Static {
                widths: StaticColumnWidths::Explicit(row),
                table_width: None,
            } && row@ == widths@,
    {
        let cols: usize = widths.len();
        ColumnWidthConfig::Static {
            widths: StaticColumnWidths::Explicit(TableRow::new(widths, cols)),
            table_width: None,
        }
    }

    /// The widths to draw the columns with. There are none where columns share the space.
    pub open spec fn drawn_widths(self) -> Option<Seq<W>> {
        match self {
            ColumnWidthConfig::Static { widths: StaticColumnWidths::Auto, .. } => None,
            ColumnWidthConfig::Static { widths: StaticColumnWidths::Explicit(widths), .. } => Some(
                widths@,
            ),
            ColumnWidthConfig::Redistributable { columns_state, .. } => Some(columns_state.widths@),
            ColumnWidthConfig::Resizable(state) => Some(state@.widths),
        }
    }

    /// The widths to draw the columns with.
    pub fn widths_to_render(&self) -> (widths: Option<TableRow<W>>)
        ensures
            match widths {
                Some(widths) => self.drawn_widths() == Some(widths@),
                None => self.drawn_widths() is None,
            },
    {
        match self {
            ColumnWidthConfig::Static { widths: StaticColumnWidths::Auto, table_width: _ } => None,
            ColumnWidthConfig::Static {
                widths: StaticColumnWidths::Explicit(widths),
                table_width: _,
            } => Some(copied_row(widths)),
            ColumnWidthConfig::Redistributable { columns_state, table_width: _ } => Some(
                copied_row(&columns_state.widths),
            ),
            ColumnWidthConfig::Resizable(state) => Some(copied_row(state.widths())),
        }
    }

    /// The width of the table, if it has one of its own. That of columns that are resized one by
    /// one is `total`: the sum of their widths and of the dividers between them.
    pub fn table_width(&self, total: W) -> (width: Option<W>)
        ensures
            width == (match *self {
                ColumnWidthConfig::Static { table_width, .. } => table_width,
                ColumnWidthConfig::Redistributable { table_width, .. } => table_width,
                ColumnWidthConfig::Resizable(_) => Some(total),
            }),
    {
        match self {
            ColumnWidthConfig::Static { widths: _, table_width } => *table_width,
            ColumnWidthConfig::Redistributable { columns_state: _, table_width } => *table_width,
            ColumnWidthConfig::Resizable(_) => Some(total),
        }
    }

    /// How the rows find their width: a table with a width of its own may be wider than its list,
    /// unless its columns are resized one by one, where the whole list is scrolled.
    pub open spec fn sizing(self) -> ListHorizontalSizing {
        match self {
            ColumnWidthConfig::Static { table_width: Some(_), .. } =>
                ListHorizontalSizing::Unconstrained,
            ColumnWidthConfig::Redistributable { table_width: Some(_), .. } =>
                ListHorizontalSizing::Unconstrained,
            _ => ListHorizontalSizing::FitList,
        }
    }

    /// How the rows find their width.
    pub fn list_horizontal_sizing(&self) -> (sizing: ListHorizontalSizing)
        ensures
            sizing == self.sizing(),
    {
        match self {
            ColumnWidthConfig::Static { widths: _, table_width: Some(_) } =>
                ListHorizontalSizing::Unconstrained,
            ColumnWidthConfig::Redistributable { columns_state: _, table_width: Some(_) } =>
                ListHorizontalSizing::Unconstrained,
            _ => ListHorizontalSizing::FitList,
        }
    }
}

/// The rows of a table: given one by one, or made as they are needed.
#[derive(Debug)]
pub enum TableContents<E> {
    Rows(Vec<TableRow<E>>),
    UniformList { element_id: String, row_count: usize },
    VariableRowHeightList { row_count: usize },
}

impl<E> TableContents<E> {
    /// How many rows there are.
    pub open spec fn count(self) -> nat {
        match self {
            TableContents::Rows(rows) => rows@.len(),
            TableContents::UniformList { row_count, .. } => row_count as nat,
            TableContents::VariableRowHeightList { row_count } => row_count as nat,
        }
    }

    /// How many rows there are.
    pub fn len(&self) -> (len: usize)
        ensures
            len == self.count(),
    {
        match self {
            TableContents::Rows(rows) => rows.len(),
            TableContents::UniformList { element_id: _, row_count } => *row_count,
            TableContents::VariableRowHeightList { row_count } => *row_count,
        }
    }

    /// Whether there are no rows.
    pub fn is_empty(&self) -> (empty: bool)
        ensures
            empty == (self.count() == 0),
    {
        self.len() == 0
    }

    /// The rows that were given one by one, to be added to.
    pub fn rows_mut(&mut self) -> (rows: Option<&mut Vec<TableRow<E>>>)
        ensures
            match rows {
                Some(rows) => *old(self) == TableContents::Rows(*rows) && *final(self)
                    == TableContents::Rows(*final(rows)),
                None => !(*old(self) is Rows) && *final(self) == *old(self),
            },
    {
        match self {
            TableContents::Rows(rows) => Some(rows),
            TableContents::UniformList { .. } => None,
            TableContents::VariableRowHeightList { .. } => None,
        }
    }
}

/// How a table is scrolled and focused.
#[derive(Clone, Copy, Debug, PartialEq, Eq, Structural)]
pub struct TableInteractionState {
    /// Which table on the screen this is.
    pub entity_id: u64,
    /// The scrollbars to show, where they are not the usual ones.
    pub custom_scrollbar: Option<u64>,
}

impl TableInteractionState {
    /// The state of a table with the usual scrollbars.
    pub fn new(entity_id: u64) -> (state: Self)
        ensures
            state == (TableInteractionState { entity_id, custom_scrollbar: None }),
    {
        TableInteractionState { entity_id, custom_scrollbar: None }
    }

    /// The same with other scrollbars.
    pub fn with_custom_scrollbar(self, custom_scrollbar: u64) -> (state: Self)
        ensures
            state == (TableInteractionState { custom_scrollbar: Some(custom_scrollbar), ..self }),
    {
        TableInteractionState { custom_scrollbar: Some(custom_scrollbar), ..self }
    }
}

/// A table.
#[derive(Debug)]
pub struct Table<E, W> {
    pub striped: bool,
    pub show_row_borders: bool,
    pub show_row_hover: bool,
    pub headers: Option<TableRow<E>>,
    pub rows: TableContents<E>,
    pub interaction_state: Option<TableInteractionState>,
    pub column_width_config: ColumnWidthConfig<W>,
    /// Whether each row is handed to the caller before it is drawn.
    pub maps_rows: bool,
    pub use_ui_font: bool,
    /// Whether the caller has something to show in place of no rows.
    pub has_empty_message: bool,
    pub cols: usize,
    pub disable_base_cell_style: bool,
}

impl<E, W: Copy> Table<E, W> {
    /// Whether every row and the header have as many cells as the table has columns.
    pub open spec fn is_valid(self) -> bool {
        &&& self.headers matches Some(headers) ==> headers@.len() == self.cols
        &&& self.rows matches TableContents::Rows(rows) ==> forall|i: int|
            0 <= i < rows@.len() ==> (#[trigger] rows@[i])@.len() == self.cols
    }

    /// Whether every row and the header have as many cells as the table has columns.
    pub fn is_rectangular(&self) -> (rectangular: bool)
        ensures
            rectangular == self.is_valid(),
    {
        if let Some(headers) = &self.headers {
            if headers.cols() != self.cols {
                return false;
            }
        }
        if let TableContents::Rows(rows) = &self.rows {
            let mut at: usize = 0;
            while at < rows.len()
                invariant
                    at <= rows@.len(),
                    self.rows == TableContents::Rows(*rows),
                    forall|i: int|
                        0 <= i < at ==> (#[trigger] rows@[i])@.len() == self.cols,
                decreases rows@.len() - at,
            {
                if rows[at].cols() != self.cols {
                    assert(self.rows->Rows_0@[at as int]@.len() != self.cols);
                    return false;
                }
                at = at + 1;
            }
        }
        true
    }

    /// An empty table with so many columns.
    pub fn new(cols: usize) -> (table: Self)
        ensures
            table.is_valid(),
            table.cols == cols,
            !table.striped,
            table.show_row_borders,
            table.show_row_hover,
            table.headers is None,
            table.rows matches TableContents::Rows(rows) && rows@.len() == 0,
            table.interaction_state is None,
            table.column_width_config == (ColumnWidthConfig::<W>::Static {
                widths: StaticColumnWidths::Auto,
                table_width: None,
            }),
            !table.maps_rows,
            table.use_ui_font,
            !table.has_empty_message,
            !table.disable_base_cell_style,
    {
        Table {
            cols,
            striped: false,
            show_row_borders: true,
            show_row_hover: true,
            headers: None,
            rows: TableContents::Rows(Vec::new()),
            interaction_state: None,
            maps_rows: false,
            use_ui_font: true,
            has_empty_message: false,
            disable_base_cell_style: false,
            column_width_config: ColumnWidthConfig::auto(),
        }
    }

    /// Leaves the style of cells in rows to the caller, but for their widths.
    pub fn disable_base_style(self) -> (table: Self)
        ensures
            table == (Table { disable_base_cell_style: true, ..self }),
    {
        Table { disable_base_cell_style: true, ..self }
    }

    /// Makes rows as they are needed, all of the same height. Rows given one by one are ignored
    /// from now on.
    pub fn uniform_list(self, id: String, row_count: usize) -> (table: Self)
        ensures
            table == (Table {
                rows: TableContents::UniformList { element_id: id, row_count },
                ..self
            }),
    {
        Table { rows: TableContents::UniformList { element_id: id, row_count }, ..self }
    }

    /// Makes rows as they are needed, each of a height of its own.
    pub fn variable_row_height_list(self, row_count: usize) -> (table: Self)
        ensures
            table == (Table { rows: TableContents::VariableRowHeightList { row_count }, ..self }),
    {
        Table { rows: TableContents::VariableRowHeightList { row_count }, ..self }
    }

    /// Colors every other row.
    pub fn striped(self) -> (table: Self)
        ensures
            table == (Table { striped: true, ..self }),
    {
        Table { striped: true, ..self }
    }

    /// Draws no lines between rows.
    pub fn hide_row_borders(self) -> (table: Self)
        ensures
            table == (Table { show_row_borders: false, ..self }),
    {
        Table { show_row_borders: false, ..self }
    }

    /// Gives the table a width that its columns share.
    pub fn width(self, width: W) -> (table: Self)
        ensures
            table == (Table {
                column_width_config: ColumnWidthConfig::Static {
                    widths: StaticColumnWidths::Auto,
                    table_width: Some(width),
                },
                ..self
            }),
    {
        Table { column_width_config: ColumnWidthConfig::auto_with_table_width(width), ..self }
    }

    /// Says how wide the columns are.
    pub fn width_config(self, config: ColumnWidthConfig<W>) -> (table: Self)
        ensures
            table == (Table { column_width_config: config, ..self }),
    {
        Table { column_width_config: config, ..self }
    }

    /// Makes the table one that can be scrolled.
    pub fn interactable(self, interaction_state: TableInteractionState) -> (table: Self)
        ensures
            table == (Table { interaction_state: Some(interaction_state), ..self }),
    {
        Table { interaction_state: Some(interaction_state), ..self }
    }

    /// Gives the table a header.
    pub fn header(self, headers: Vec<E>) -> (table: Self)
        requires
            headers@.len() == self.cols,
        ensures
            table.headers matches Some(row) && row@ == headers@,
            table == (Table { headers: table.headers, ..self }),
            self.is_valid() ==> table.is_valid(),
    {
        let headers = Some(TableRow::new(headers, self.cols));
        Table { headers, ..self }
    }

    /// Adds a row at the end. Where rows are made as they are needed, nothing is added.
    pub fn row(self, items: Vec<E>) -> (table: Self)
        requires
            self.rows is Rows ==> items@.len() == self.cols,
        ensures
            table == (Table { rows: table.rows, ..self }),
            match self.rows {
                TableContents::Rows(rows) => table.rows matches TableContents::Rows(more)
                    && more@.len() == rows@.len() + 1 && more@.drop_last() == rows@
                    && more@.last()@ == items@,
                _ => table.rows == self.rows,
            },
            self.is_valid() ==> table.is_valid(),
    {
        let mut table = self;
        let cols: usize = table.cols;
        if let Some(rows) = table.rows.rows_mut() {
            let ghost before = rows@;
            rows.push(TableRow::new(items, cols));
            assert(rows@.drop_last() =~= before);
        }
        proof {
            if table.rows is Rows && self.is_valid() {
                let before = self.rows->Rows_0@;
                let more = table.rows->Rows_0@;
                assert forall|i: int| 0 <= i < more.len() implies (#[trigger] more[i])@.len()
                    == table.cols by {
                    if i < before.len() {
                        assert(more[i] == more.drop_last()[i]);
                    }
                }
            }
        }
        table
    }

    /// Draws cells in the font they come with.
    pub fn no_ui_font(self) -> (table: Self)
        ensures
            table == (Table { use_ui_font: false, ..self }),
    {
        Table { use_ui_font: false, ..self }
    }

    /// Hands each row to the caller before it is drawn.
    pub fn map_row(self) -> (table: Self)
        ensures
            table == (Table { maps_rows: true, ..self }),
    {
        Table { maps_rows: true, ..self }
    }

    /// Leaves it to the caller to show which row the mouse is on.
    pub fn hide_row_hover(self) -> (table: Self)
        ensures
            table == (Table { show_row_hover: false, ..self }),
    {
        Table { show_row_hover: false, ..self }
    }

    /// Shows something of the caller's in place of no rows.
    pub fn empty_table_callback(self) -> (table: Self)
        ensures
            table == (Table { has_empty_message: true, ..self }),
    {
        Table { has_empty_message: true, ..self }
    }
}

/// What there is to know of a table to draw one of its rows.
#[derive(Debug)]
pub struct TableRenderContext<W> {
    pub striped: bool,
    pub show_row_borders: bool,
    pub show_row_hover: bool,
    pub total_row_count: usize,
    pub column_widths: Option<TableRow<W>>,
    pub maps_rows: bool,
    pub use_ui_font: bool,
    pub disable_base_cell_style: bool,
}

impl<W: Copy> TableRenderContext<W> {
    /// The widths to draw the columns with.
    pub open spec fn widths(self) -> Option<Seq<W>> {
        match self.column_widths {
            Some(widths) => Some(widths@),
            None => None,
        }
    }

    /// What there is to know of the table.
    pub fn new<E>(table: &Table<E, W>) -> (context: Self)
        ensures
            context.is_for(*table),
    {
        TableRenderContext {
            striped: table.striped,
            show_row_borders: table.show_row_borders,
            show_row_hover: table.show_row_hover,
            total_row_count: table.rows.len(),
            column_widths: table.column_width_config.widths_to_render(),
            maps_rows: table.maps_rows,
            use_ui_font: table.use_ui_font,
            disable_base_cell_style: table.disable_base_cell_style,
        }
    }

    /// Whether this is what there is to know of the table.
    pub open spec fn is_for<E>(self, table: Table<E, W>) -> bool {
        &&& self.striped == table.striped
        &&& self.show_row_borders == table.show_row_borders
        &&& self.show_row_hover == table.show_row_hover
        &&& self.total_row_count == table.rows.count()
        &&& self.widths() == table.column_width_config.drawn_widths()
        &&& self.maps_rows == table.maps_rows
        &&& self.use_ui_font == table.use_ui_font
        &&& self.disable_base_cell_style == table.disable_base_cell_style
    }

    /// What there is to know of a table of which only the widths of its columns are known.
    pub fn for_column_widths(column_widths: Option<TableRow<W>>, use_ui_font: bool) -> (context:
        Self)
        ensures
            context == (TableRenderContext {
                striped: false,
                show_row_borders: true,
                show_row_hover: true,
                total_row_count: 0,
                column_widths,
                maps_rows: false,
                use_ui_font,
                disable_base_cell_style: false,
            }),
    {
        TableRenderContext {
            striped: false,
            show_row_borders: true,
            show_row_hover: true,
            total_row_count: 0,
            column_widths,
            maps_rows: false,
            use_ui_font,
            disable_base_cell_style: false,
        }
    }
}

/// How a cell is drawn.
#[derive(Debug, PartialEq, Eq)]
pub struct CellLayout<E, W> {
    pub content: E,
    /// The cell's width; a cell without one takes its share of the space.
    pub width: Option<W>,
    /// Whether it has the usual padding, and its text is cut off rather than broken.
    pub base_style: bool,
    pub use_ui_font: bool,
}

/// The line below a row.
#[derive(Clone, Copy, Debug, PartialEq, Eq, Structural)]
pub enum RowBorder {
    /// None.
    Absent,
    /// One that takes its space but is not seen.
    Transparent,
    /// One that is seen.
    Visible,
}

/// How a row is drawn.
#[derive(Debug, PartialEq, Eq)]
pub struct RowLayout<E, W> {
    pub row_index: usize,
    /// Whether the row is colored.
    pub has_background: bool,
    /// Whether the row shows that the mouse is on it.
    pub shows_hover: bool,
    pub border: RowBorder,
    pub cells: Vec<CellLayout<E, W>>,
    /// Whether the caller gets to change the row.
    pub is_mapped: bool,
}

/// The width of the cell with the given number.
pub open spec fn width_at<W>(widths: Option<Seq<W>>, at: int) -> Option<W> {
    match widths {
        Some(widths) => Some(widths[at]),
        None => None,
    }
}

/// How many of so many cells are drawn: a cell for which there should be a width, but is none, is
/// not.
pub open spec fn drawn_cells<W>(cells: nat, widths: Option<Seq<W>>) -> nat {
    match widths {
        Some(widths) => if widths.len() < cells {
            widths.len()
        } else {
            cells
        },
        None => cells,
    }
}

impl<E, W: Copy> RowLayout<E, W> {
    /// Whether this is how the row is drawn. Every second row of a striped table is colored; the
    /// rows of any other have lines between them.
    pub open spec fn shows(self, row_index: int, items: Seq<E>, context: TableRenderContext<W>) -> bool {
        &&& self.row_index == row_index
        &&& self.has_background == (row_index % 2 == 1 && context.striped)
        &&& self.shows_hover == context.show_row_hover
        &&& self.border == (if context.striped || !context.show_row_borders {
            RowBorder::Absent
        } else if row_index == context.total_row_count - 1 {
            RowBorder::Transparent
        } else {
            RowBorder::Visible
        })
        &&& self.is_mapped == context.maps_rows
        &&& self.cells@.len() == drawn_cells(items.len(), context.widths())
        &&& forall|i: int|
            0 <= i < self.cells@.len() ==> #[trigger] self.cells@[i] == (CellLayout {
                content: items[i],
                width: width_at(context.widths(), i),
                base_style: !context.disable_base_cell_style,
                use_ui_font: !context.disable_base_cell_style && context.use_ui_font,
            })
    }
}

/// How a row is drawn.
pub fn render_table_row<E, W: Copy>(
    row_index: usize,
    items: TableRow<E>,
    table_context: &TableRenderContext<W>,
) -> (row: RowLayout<E, W>)
    requires
        table_context.total_row_count > 0,
    ensures
        row.shows(row_index as int, items@, *table_context),
{
    let is_last = row_index == table_context.total_row_count - 1;
    let border = if table_context.striped || !table_context.show_row_borders {
        RowBorder::Absent
    } else if is_last {
        RowBorder::Transparent
    } else {
        RowBorder::Visible
    };
    let ghost all = items@;
    let mut count: usize = items.cols();
    if let Some(widths) = &table_context.column_widths {
        if widths.cols() < count {
            count = widths.cols();
        }
    }
    let mut left = items.into_vec();
    let mut cells: Vec<CellLayout<E, W>> = Vec::new();
    assert(all.skip(0) =~= all);
    while cells.len() < count
        invariant
            count == drawn_cells(all.len(), table_context.widths()),
            cells@.len() <= count,
            left@ == all.skip(cells@.len() as int),
            forall|i: int|
                0 <= i < cells@.len() ==> #[trigger] cells@[i] == (CellLayout {
                    content: all[i],
                    width: width_at(table_context.widths(), i),
                    base_style: !table_context.disable_base_cell_style,
                    use_ui_font: !table_context.disable_base_cell_style
                        && table_context.use_ui_font,
                }),
        decreases count - cells@.len(),
    {
        let ghost done = cells@.len() as int;
        let content = left.remove(0);
        assert(content == all[done]);
        assert(left@ =~= all.skip(done + 1));
        let width = match &table_context.column_widths {
            Some(widths) => Some(*widths.cell(cells.len())),
            None => None,
        };
        cells.push(
            CellLayout {
                content,
                width,
                base_style: !table_context.disable_base_cell_style,
                use_ui_font: !table_context.disable_base_cell_style && table_context.use_ui_font,
            },
        );
    }
    RowLayout {
        row_index,
        has_background: row_index % 2 == 1 && table_context.striped,
        shows_hover: table_context.show_row_hover,
        border,
        cells,
        is_mapped: table_context.maps_rows,
    }
}

/// In a table with lines between its rows, exactly the last row has none below it.
pub proof fn only_last_row_has_no_line<E, W: Copy>(
    row: RowLayout<E, W>,
    row_index: int,
    items: Seq<E>,
    context: TableRenderContext<W>,
)
    requires
        row.shows(row_index, items, context),
        !context.striped,
        context.show_row_borders,
        0 <= row_index < context.total_row_count,
    ensures
        row.border is Visible <==> row_index + 1 < context.total_row_count,
        !(row.border is Absent),
        !row.has_background,
{
}

/// Of two rows that follow each other in a striped table exactly one is colored, and the first row
/// of all is not. Neither has a line below it, and rows of a table that is not striped are never
/// colored.
pub proof fn striped_rows_take_turns<E, W: Copy>(
    row: RowLayout<E, W>,
    next: RowLayout<E, W>,
    row_index: int,
    items: Seq<E>,
    next_items: Seq<E>,
    context: TableRenderContext<W>,
)
    requires
        0 <= row_index,
        row.shows(row_index, items, context),
        next.shows(row_index + 1, next_items, context),
    ensures
        context.striped ==> row.has_background != next.has_background,
        context.striped ==> row.border is Absent && next.border is Absent,
        row_index == 0 ==> !row.has_background,
        !context.striped ==> !row.has_background && !next.has_background,
        !context.show_row_borders ==> row.border is Absent,
        next.row_index == row.row_index + 1,
{
}

/// A row shows what is in its cells, in their order, and all of it where the columns share the
/// space or each has a width; a cell gets the width of its column. Whether the mouse is shown and
/// the caller gets to change the row is for the table to say.
pub proof fn cells_show_their_contents<E, W: Copy>(
    row: RowLayout<E, W>,
    row_index: int,
    items: Seq<E>,
    context: TableRenderContext<W>,
    at: int,
)
    requires
        row.shows(row_index, items, context),
        context.column_widths is Some ==> items.len() <= context.column_widths->0@.len(),
        0 <= at < items.len(),
    ensures
        row.cells@.len() == items.len(),
        row.cells@[at].content == items[at],
        context.column_widths is None ==> row.cells@[at].width is None,
        context.column_widths is Some ==> row.cells@[at].width == Some(
            context.column_widths->0@[at],
        ),
        row.cells@[at].base_style != context.disable_base_cell_style,
        row.cells@[at].use_ui_font ==> row.cells@[at].base_style && context.use_ui_font,
        context.use_ui_font && row.cells@[at].base_style ==> row.cells@[at].use_ui_font,
        row.shows_hover == context.show_row_hover,
        row.is_mapped == context.maps_rows,
{
}

/// Cells beyond the last width are left out, and no others.
pub proof fn cells_without_a_width_are_left_out<E, W: Copy>(
    row: RowLayout<E, W>,
    row_index: int,
    items: Seq<E>,
    context: TableRenderContext<W>,
)
    requires
        row.shows(row_index, items, context),
        context.column_widths is Some,
    ensures
        row.cells@.len() <= items.len(),
        row.cells@.len() <= context.column_widths->0@.len(),
        row.cells@.len() == items.len() || row.cells@.len() == context.column_widths->0@.len(),
        forall|i: int|
            0 <= i < row.cells@.len() ==> (#[trigger] row.cells@[i]).content == items[i]
                && row.cells@[i].width == Some(context.column_widths->0@[i]),
{
}

/// The width a column had at first, and how each can be resized, outlast any resizing, and a
/// reset gives back that width whatever came between.
pub proof fn first_widths_are_kept<W>(state: ResizableColumnsView<W>, col: int, other: int, width: W)
    requires
        state.is_valid(),
        0 <= col < state.widths.len(),
        0 <= other < state.widths.len(),
    ensures
        state.resized(col, width).initial_widths == state.initial_widths,
        state.resized(col, width).resize_behavior == state.resize_behavior,
        state.resized(col, width).widths.len() == state.widths.len(),
        state.reset(col).initial_widths == state.initial_widths,
        state.reset(col).resize_behavior == state.resize_behavior,
        state.resized(col, width).reset(col).widths[col] == state.initial_widths[col],
        other != col ==> state.reset(col).widths[other] == state.widths[other],
{
}

/// A table knows as many rows as it holds, or as it was told to make.
pub proof fn rows_are_counted<E>(rows: Vec<TableRow<E>>, element_id: String, row_count: usize)
    ensures
        TableContents::Rows(rows).count() == rows@.len(),
        (TableContents::<E>::UniformList { element_id, row_count }).count() == row_count,
        (TableContents::<E>::VariableRowHeightList { row_count }).count() == row_count,
{
}

/// Only columns that share the space are drawn without widths. Rows find their width for
/// themselves exactly where the table has one of its own and its columns are not resized one by
/// one.
pub proof fn widths_follow_the_columns<W: Copy>(config: ColumnWidthConfig<W>)
    ensures
        match config.drawn_widths() {
            None => config matches ColumnWidthConfig::Static { widths, .. } && widths is Auto,
            Some(drawn) => match config {
                ColumnWidthConfig::Static { widths, .. } => widths is Explicit && drawn
                    == widths->Explicit_0@,
                ColumnWidthConfig::Redistributable { columns_state, .. } => drawn
                    == columns_state.widths@,
                ColumnWidthConfig::Resizable(state) => drawn == state@.widths,
            },
        },
        config.sizing() is Unconstrained == (match config {
            ColumnWidthConfig::Static { table_width, .. } => table_width is Some,
            ColumnWidthConfig::Redistributable { table_width, .. } => table_width is Some,
            ColumnWidthConfig::Resizable(_) => false,
        }),
{
}

} // verus!
