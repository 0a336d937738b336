//! How a whole table is drawn.

use crate::data_table::{
    drawn_cells, render_table_row, width_at, ColumnWidthConfig, ListHorizontalSizing,
    ResizableColumnsState, RowLayout, Table, TableContents, TableInteractionState,
    TableRenderContext, TableResizeBehavior, TableRow,
};
use crate::text;
use vstd::prelude::*;

verus! {

/// How a cell of the header is drawn.
#[derive(Debug, PartialEq, Eq)]
pub struct HeaderCellLayout<E, W> {
    pub content: E,
    pub width: Option<W>,
    pub use_ui_font: bool,
    /// Whether a double click gives the column back the width it had at first.
    pub resets_column: bool,
}

/// How the header is drawn.
#[derive(Debug, PartialEq, Eq)]
pub struct HeaderLayout<E, W> {
    /// What the cells are known as, each with its number.
    pub element_id: String,
    pub cells: Vec<HeaderCellLayout<E, W>>,
}

/// Whether a column can be resized, as far as anything is known of that.
pub open spec fn is_resizable_at(behavior: Option<Seq<TableResizeBehavior>>, at: int) -> bool {
    behavior matches Some(behavior) && !(behavior[at] is Fixed)
}

impl<E, W: Copy> HeaderLayout<E, W> {
    /// Whether this is how the header is drawn.
    pub open spec fn shows(
        self,
        headers: Seq<E>,
        context: TableRenderContext<W>,
        behavior: Option<Seq<TableResizeBehavior>>,
        entity: Option<Seq<char>>,
    ) -> bool {
        &&& self.element_id@ == "table-"@ + (match entity {
            Some(entity) => entity,
            None => Seq::empty(),
        })
        &&& self.cells@.len() == drawn_cells(headers.len(), context.widths())
        &&& forall|i: int|
            0 <= i < self.cells@.len() ==> #[trigger] self.cells@[i] == (HeaderCellLayout {
                content: headers[i],
                width: width_at(context.widths(), i),
                use_ui_font: context.use_ui_font,
                resets_column: is_resizable_at(behavior, i),
            })
    }
}

/// What the header needs to know of columns that can be resized.
#[derive(Debug)]
pub struct ResizableHeaderInfo<'a> {
    pub resize_behavior: &'a TableRow<TableResizeBehavior>,
}

/// How each column can be resized, as far as anything is known of that.
pub open spec fn known_behavior(info: Option<ResizableHeaderInfo>) -> Option<
    Seq<TableResizeBehavior>,
> {
    match info {
        Some(info) => Some(info.resize_behavior@),
        None => None,
    }
}

/// What an optional text says.
pub open spec fn optional_text(text: Option<&str>) -> Option<Seq<char>> {
    match text {
        Some(text) => Some(text@),
        None => None,
    }
}

/// How the header is drawn. `info` is there where the table can be interacted with and its columns
/// can be resized at all.
pub fn render_table_header<E, W: Copy>(
    headers: TableRow<E>,
    table_context: &TableRenderContext<W>,
    info: Option<ResizableHeaderInfo>,
    entity: Option<&str>,
) -> (header: HeaderLayout<E, W>)
    requires
        info matches Some(info) ==> info.resize_behavior@.len() >= drawn_cells(
            headers@.len(),
            table_context.widths(),
        ),
    ensures
        header.shows(headers@, *table_context, known_behavior(info), optional_text(entity)),
{
    let element_id = match entity {
        Some(entity) => text::joined("table-", entity),
        None => "table-".to_owned(),
    };
    assert(element_id@ =~= "table-"@ + (match entity {
        Some(entity) => entity@,
        None => Seq::empty(),
    }));
    let ghost all = headers@;
    let mut count: usize = headers.cols();
    if let Some(widths) = &table_context.column_widths {
        if widths.cols() < count {
            count = widths.cols();
        }
    }
    let mut left = headers.into_vec();
    let mut cells: Vec<HeaderCellLayout<E, W>> = Vec::new();
    assert(all.skip(0) =~= all);
    while cells.len() < count
        invariant
            count == drawn_cells(all.len(), table_context.widths()),
            cells@.len() <= count,
            left@ == all.skip(cells@.len() as int),
            info matches Some(info) ==> info.resize_behavior@.len() >= count,
            forall|i: int|
                0 <= i < cells@.len() ==> #[trigger] cells@[i] == (HeaderCellLayout {
                    content: all[i],
                    width: width_at(table_context.widths(), i),
                    use_ui_font: table_context.use_ui_font,
                    resets_column: is_resizable_at(known_behavior(info), i),
                }),
        decreases count - cells@.len(),
    {
        let at: usize = cells.len();
        let content = left.remove(0);
        assert(content == all[at as int]);
        assert(left@ =~= all.skip(at + 1));
        let width = match &table_context.column_widths {
            Some(widths) => Some(*widths.cell(at)),
            None => None,
        };
        let resets_column = match &info {
            Some(info) => info.resize_behavior.cell(at).is_resizable(),
            None => false,
        };
        cells.push(
            HeaderCellLayout {
                content,
                width,
                use_ui_font: table_context.use_ui_font,
                resets_column,
            },
        );
    }
    HeaderLayout { element_id, cells }
}

/// Whether a click on a column that can be reset resets it: only the second of a double click
/// does.
pub fn click_resets_column(click_count: usize) -> (resets: bool)
    ensures
        resets == (click_count >= 2),
{
    click_count > 1
}

/// A piece of the layer above the columns by which they are resized.
#[derive(Debug, PartialEq, Eq)]
pub enum ResizeElement<W> {
    /// A space as wide as the column below it.
    Spacer { width: W },
    /// The line behind a column, which can be dragged where the column can be resized.
    Divider { col_idx: usize, is_resizable: bool },
}

/// The layer above columns that are resized one by one: a space for each column, and a divider
/// between each two.
pub open spec fn resize_elements<W>(widths: Seq<W>, behavior: Seq<TableResizeBehavior>) -> Seq<
    ResizeElement<W>,
> {
    Seq::new(
        (2 * widths.len() - 1) as nat,
        |i: int|
            if i % 2 == 0 {
                ResizeElement::Spacer { width: widths[i / 2] }
            } else {
                ResizeElement::Divider {
                    col_idx: (i / 2) as usize,
                    is_resizable: !(behavior[i / 2] is Fixed),
                }
            },
    )
}

/// The layer above columns that are resized one by one.
pub fn render_resize_handles_resizable<W: Copy>(state: &ResizableColumnsState<W>) -> (elements: Vec<
    ResizeElement<W>,
>)
    requires
        state@.is_valid(),
        state@.widths.len() > 0,
    ensures
        elements@ == resize_elements(state@.widths, state@.resize_behavior),
{
    let widths = state.widths();
    let behavior = state.resize_behavior();
    let cols: usize = widths.cols();
    let ghost all = resize_elements(state@.widths, state@.resize_behavior);
    let mut elements: Vec<ResizeElement<W>> = Vec::new();
    let mut at: usize = 0;
    while at < cols
        invariant
            at <= cols,
            cols == state@.widths.len(),
            cols > 0,
            widths@ == state@.widths,
            behavior@ == state@.resize_behavior,
            state@.is_valid(),
            all == resize_elements(state@.widths, state@.resize_behavior),
            at < cols ==> elements@.len() == 2 * at,
            at == cols ==> elements@.len() == 2 * cols - 1,
            forall|i: int| 0 <= i < elements@.len() ==> #[trigger] elements@[i] == all[i],
        decreases cols - at,
    {
        let spacer = ResizeElement::Spacer { width: *widths.cell(at) };
        assert(all[2 * at as int] == spacer);
        elements.push(spacer);
        if cols - at > 1 {
            let divider = ResizeElement::Divider {
                col_idx: at,
                is_resizable: behavior.cell(at).is_resizable(),
            };
            assert(all[2 * at + 1] == divider);
            elements.push(divider);
        }
        at = at + 1;
    }
    assert(elements@ =~= all);
    elements
}

/// The layer above the columns by which they are resized, where there is one.
#[derive(Debug, PartialEq, Eq)]
pub enum ResizeHandles<W> {
    Absent,
    /// That of columns that share the width of the table.
    Redistributable,
    /// That of columns that are resized one by one.
    Resizable(Vec<ResizeElement<W>>),
}

/// How the rows are drawn.
#[derive(Debug, PartialEq, Eq)]
pub enum BodyLayout<E, W> {
    Rows(Vec<RowLayout<E, W>>),
    UniformList {
        element_id: String,
        row_count: usize,
        sizing: ListHorizontalSizing,
        /// Whether the list is scrolled with the table.
        tracks_scroll: bool,
    },
    VariableRowHeightList { row_count: usize },
}

/// The scrollbars of the rows.
#[derive(Clone, Copy, Debug, PartialEq, Eq, Structural)]
pub enum BodyScrollbars {
    Absent,
    /// One for each direction.
    Both,
    /// Those that the caller chose.
    Custom(u64),
}

/// What is around the table.
#[derive(Clone, Copy, Debug, PartialEq, Eq, Structural)]
pub enum TableWrapper {
    /// Nothing.
    Plain,
    /// Something that takes the keyboard focus.
    Focusable { entity_id: u64 },
    /// The same, within a container that scrolls the table as a whole.
    HorizontalScroll { entity_id: u64 },
}

/// How a table is drawn.
#[derive(Debug)]
pub struct TableLayout<E, W> {
    pub table_width: Option<W>,
    pub header: Option<HeaderLayout<E, W>>,
    /// Whether dragging a divider takes from one column and gives to the next.
    pub redistributes_columns: bool,
    /// Whether dragging a divider resizes one column.
    pub resizes_columns: bool,
    pub body: BodyLayout<E, W>,
    pub resize_handles: ResizeHandles<W>,
    pub scrollbars: BodyScrollbars,
    /// Whether the caller's message is shown in place of no rows.
    pub shows_empty_message: bool,
    pub wrapper: TableWrapper,
}

/// How the columns of a table can be resized: that can be said of a table that can be interacted
/// with, and whose columns can be resized at all.
pub open spec fn behavior_of<E, W: Copy>(table: Table<E, W>) -> Option<Seq<TableResizeBehavior>> {
    if table.interaction_state is None {
        None
    } else {
        match table.column_width_config {
            ColumnWidthConfig::Static { .. } => None,
            ColumnWidthConfig::Redistributable { columns_state, .. } => Some(
                columns_state.resize_behavior@,
            ),
            ColumnWidthConfig::Resizable(state) => Some(state@.resize_behavior),
        }
    }
}

/// Whether a table can be drawn: its rows and its header fit its columns, something is known of
/// each column under a drawn cell of the header, where columns can be resized, and there is at
/// least one column to resize one by one.
pub open spec fn can_be_drawn<E, W: Copy>(table: Table<E, W>) -> bool {
    &&& table.is_valid()
    &&& table.headers is Some ==> (behavior_of(table) matches Some(behavior) ==> behavior.len()
        >= drawn_cells(table.cols as nat, table.column_width_config.drawn_widths()))
    &&& table.interaction_state is Some && table.column_width_config is Resizable ==> {
        let state = table.column_width_config->Resizable_0;
        state@.is_valid() && state@.widths.len() > 0
    }
}

/// Whether the rows are drawn one below the other, each in its place.
pub open spec fn shows_rows<E, W: Copy>(
    layout: Seq<RowLayout<E, W>>,
    rows: Seq<TableRow<E>>,
    context: TableRenderContext<W>,
) -> bool {
    &&& layout.len() == rows.len()
    &&& forall|i: int|
        0 <= i < layout.len() ==> (#[trigger] layout[i]).shows(i, rows[i]@, context)
}

impl<E, W: Copy> TableLayout<E, W> {
    /// Whether this is how the table is drawn. `total` is the width of columns that are resized
    /// one by one, all together; `entity` is what a table that can be interacted with is known as.
    pub open spec fn shows(
        self,
        table: Table<E, W>,
        context: TableRenderContext<W>,
        total: W,
        entity: Seq<char>,
    ) -> bool {
        let interactive = table.interaction_state is Some;
        let config = table.column_width_config;
        &&& self.table_width == (match config {
            ColumnWidthConfig::Static { table_width, .. } => table_width,
            ColumnWidthConfig::Redistributable { table_width, .. } => table_width,
            ColumnWidthConfig::Resizable(_) => Some(total),
        })
        &&& match table.headers {
            Some(headers) => self.header matches Some(header) && header.shows(
                headers@,
                context,
                behavior_of(table),
                if interactive {
                    Some(entity)
                } else {
                    None
                },
            ),
            None => self.header is None,
        }
        &&& self.redistributes_columns == (interactive && config is Redistributable)
        &&& self.resizes_columns == (interactive && config is Resizable)
        &&& match table.rows {
            TableContents::Rows(rows) => self.body matches BodyLayout::Rows(layout) && shows_rows(
                layout@,
                rows@,
                context,
            ),
            TableContents::UniformList { element_id, row_count } => self.body == (
            BodyLayout::<E, W>::UniformList {
                element_id,
                row_count,
                sizing: config.sizing(),
                tracks_scroll: interactive,
            }),
            TableContents::VariableRowHeightList { row_count } => self.body == (
            BodyLayout::<E, W>::VariableRowHeightList { row_count }),
        }
        &&& match config {
            ColumnWidthConfig::Redistributable { .. } if interactive => self.resize_handles
                == ResizeHandles::<W>::Redistributable,
            ColumnWidthConfig::Resizable(state) if interactive =>
                self.resize_handles matches ResizeHandles::Resizable(elements) && elements@
                    == resize_elements(state@.widths, state@.resize_behavior),
            _ => self.resize_handles == ResizeHandles::<W>::Absent,
        }
        &&& self.scrollbars == (match table.interaction_state {
            Some(state) => match state.custom_scrollbar {
                Some(custom) => BodyScrollbars::Custom(custom),
                None => BodyScrollbars::Both,
            },
            None => BodyScrollbars::Absent,
        })
        &&& self.shows_empty_message == (table.has_empty_message && table.rows.count() == 0)
        &&& self.wrapper == (match table.interaction_state {
            Some(state) => if config is Resizable {
                TableWrapper::HorizontalScroll { entity_id: state.entity_id }
            } else {
                TableWrapper::Focusable { entity_id: state.entity_id }
            },
            None => TableWrapper::Plain,
        })
    }
}

fn render_rows<E, W: Copy>(rows: Vec<TableRow<E>>, context: &TableRenderContext<W>) -> (layout: Vec<
    RowLayout<E, W>,
>)
    requires
        context.total_row_count == rows@.len(),
    ensures
        shows_rows(layout@, rows@, *context),
{
    let ghost all = rows@;
    let mut left = rows;
    let mut layout: Vec<RowLayout<E, W>> = Vec::new();
    assert(all.skip(0) =~= all);
    while left.len() > 0
        invariant
            layout@.len() <= all.len(),
            context.total_row_count == all.len(),
            left@ == all.skip(layout@.len() as int),
            forall|i: int|
                0 <= i < layout@.len() ==> (#[trigger] layout@[i]).shows(i, all[i]@, *context),
        decreases left@.len(),
    {
        let at: usize = layout.len();
        let row = left.remove(0);
        assert(row == all[at as int]);
        assert(left@ =~= all.skip(at + 1));
        layout.push(render_table_row(at, row, context));
    }
    layout
}

/// How many rows of a list are drawn where so many were made for the places from `first` to before
/// `end`: no more than there are places.
pub open spec fn listed_rows(made: nat, first: nat, end: nat) -> nat {
    if end <= first {
        0
    } else if made < end - first {
        made
    } else {
        (end - first) as nat
    }
}

/// How the rows of a list that have come into view are drawn: those from `first` to before `end`.
/// Rows that were made beyond these places are left out.
pub fn render_list_rows<E, W: Copy>(
    first: usize,
    end: usize,
    rows: Vec<Vec<E>>,
    cols: usize,
    context: &TableRenderContext<W>,
) -> (layout: Vec<RowLayout<E, W>>)
    requires
        listed_rows(rows@.len(), first as nat, end as nat) > 0 ==> context.total_row_count > 0,
        forall|i: int| 0 <= i < rows@.len() ==> (#[trigger] rows@[i])@.len() == cols,
    ensures
        layout@.len() == listed_rows(rows@.len(), first as nat, end as nat),
        forall|i: int|
            0 <= i < layout@.len() ==> (#[trigger] layout@[i]).shows(
                first + i,
                rows@[i]@,
                *context,
            ),
{
    let ghost all = rows@;
    let mut count: usize = 0;
    if first < end {
        count = end - first;
        if rows.len() < count {
            count = rows.len();
        }
    }
    let mut left = rows;
    let mut layout: Vec<RowLayout<E, W>> = Vec::new();
    assert(all.skip(0) =~= all);
    while layout.len() < count
        invariant
            layout@.len() <= count <= all.len(),
            count == listed_rows(all.len(), first as nat, end as nat),
            count > 0 ==> context.total_row_count > 0,
            left@ == all.skip(layout@.len() as int),
            forall|i: int| 0 <= i < all.len() ==> (#[trigger] all[i])@.len() == cols,
            forall|i: int|
                0 <= i < layout@.len() ==> (#[trigger] layout@[i]).shows(
                    first + i,
                    all[i]@,
                    *context,
                ),
        decreases count - layout@.len(),
    {
        let at: usize = layout.len();
        let cells = left.remove(0);
        assert(cells == all[at as int]);
        assert(left@ =~= all.skip(at + 1));
        layout.push(render_table_row(first + at, TableRow::new(cells, cols), context));
    }
    layout
}

fn scrollbars_of(state: &Option<TableInteractionState>) -> (scrollbars: BodyScrollbars)
    ensures
        scrollbars == (match *state {
            Some(state) => match state.custom_scrollbar {
                Some(custom) => BodyScrollbars::Custom(custom),
                None => BodyScrollbars::Both,
            },
            None => BodyScrollbars::Absent,
        }),
{
    match state {
        Some(state) => match state.custom_scrollbar {
            Some(custom) => BodyScrollbars::Custom(custom),
            None => BodyScrollbars::Both,
        },
        None => BodyScrollbars::Absent,
    }
}

impl<E, W: Copy> Table<E, W> {
    /// Whether the table can be drawn.
    pub fn is_drawable(&self) -> (drawable: bool)
        ensures
            drawable == can_be_drawn(*self),
    {
        if !self.is_rectangular() {
            return false;
        }
        if self.interaction_state.is_none() {
            return true;
        }
        let mut drawn: usize = self.cols;
        if let Some(widths) = self.column_width_config.widths_to_render() {
            if widths.cols() < drawn {
                drawn = widths.cols();
            }
        }
        match &self.column_width_config {
            ColumnWidthConfig::Static { .. } => true,
            ColumnWidthConfig::Redistributable { columns_state, table_width: _ } =>
                self.headers.is_none() || columns_state.resize_behavior.cols() >= drawn,
            ColumnWidthConfig::Resizable(state) => (self.headers.is_none()
                || state.resize_behavior().cols() >= drawn) && state.is_complete() && state.cols()
                > 0,
        }
    }

    /// How a table is drawn. `total` is the width of columns that are resized one by one, all
    /// together; `entity` is what a table that can be interacted with is known as, and of no matter
    /// for any other.
    pub fn render(self, total: W, entity: &str) -> (drawn: (
        TableLayout<E, W>,
        TableRenderContext<W>,
    ))
        requires
            can_be_drawn(self),
        ensures
            drawn.1.is_for(self),
            drawn.0.shows(self, drawn.1, total, entity@),
    {
        let table = self;
        let context = TableRenderContext::new(&table);
        let table_width = table.column_width_config.table_width(total);
        let sizing = table.column_width_config.list_horizontal_sizing();
        let shows_empty_message = table.has_empty_message && table.rows.is_empty();
        let interactive = table.interaction_state.is_some();
        let scrollbars = scrollbars_of(&table.interaction_state);
        let Table { headers, rows, interaction_state, column_width_config, .. } = table;
        let redistributes_columns = match &column_width_config {
            ColumnWidthConfig::Redistributable { .. } => interactive,
            _ => false,
        };
        let resizes_columns = match &column_width_config {
            ColumnWidthConfig::Resizable(_) => interactive,
            _ => false,
        };
        let info = match &column_width_config {
            ColumnWidthConfig::Redistributable { columns_state, table_width: _ } => if interactive {
                Some(ResizableHeaderInfo { resize_behavior: &columns_state.resize_behavior })
            } else {
                None
            },
            ColumnWidthConfig::Resizable(state) => if interactive {
                Some(ResizableHeaderInfo { resize_behavior: state.resize_behavior() })
            } else {
                None
            },
            _ => None,
        };
        let header = match headers {
            Some(headers) => Some(
                render_table_header(
                    headers,
                    &context,
                    info,
                    if interactive {
                        Some(entity)
                    } else {
                        None
                    },
                ),
            ),
            None => None,
        };
        let resize_handles = match &column_width_config {
            ColumnWidthConfig::Redistributable { .. } => if interactive {
                ResizeHandles::Redistributable
            } else {
                ResizeHandles::Absent
            },
            ColumnWidthConfig::Resizable(state) => if interactive {
                ResizeHandles::Resizable(render_resize_handles_resizable(state))
            } else {
                ResizeHandles::Absent
            },
            _ => ResizeHandles::Absent,
        };
        let body = match rows {
            TableContents::Rows(rows) => BodyLayout::Rows(render_rows(rows, &context)),
            TableContents::UniformList { element_id, row_count } => BodyLayout::UniformList {
                element_id,
                row_count,
                sizing,
                tracks_scroll: interactive,
            },
            TableContents::VariableRowHeightList { row_count } => BodyLayout::VariableRowHeightList {
                row_count,
            },
        };
        let wrapper = match interaction_state {
            Some(state) => if resizes_columns {
                TableWrapper::HorizontalScroll { entity_id: state.entity_id }
            } else {
                TableWrapper::Focusable { entity_id: state.entity_id }
            },
            None => TableWrapper::Plain,
        };
        let layout = TableLayout {
            table_width,
            header,
            redistributes_columns,
            resizes_columns,
            body,
            resize_handles,
            scrollbars,
            shows_empty_message,
            wrapper,
        };
        (layout, context)
    }
}

/// The header stands above its columns: it has as many cells as a row with as many items, each as
/// wide as the cell below it. It shows the headings in their order.
pub proof fn header_stands_above_its_columns<E, W: Copy>(
    header: HeaderLayout<E, W>,
    headers: Seq<E>,
    behavior: Option<Seq<TableResizeBehavior>>,
    entity: Option<Seq<char>>,
    row: RowLayout<E, W>,
    row_index: int,
    items: Seq<E>,
    context: TableRenderContext<W>,
    at: int,
)
    requires
        header.shows(headers, context, behavior, entity),
        row.shows(row_index, items, context),
        headers.len() == items.len(),
        0 <= at < header.cells@.len(),
    ensures
        row.cells@.len() == header.cells@.len(),
        header.cells@[at].width == row.cells@[at].width,
        header.cells@[at].content == headers[at],
        header.cells@.len() <= headers.len(),
        context.column_widths is None ==> header.cells@.len() == headers.len(),
        context.column_widths is Some && context.column_widths->0@.len() >= headers.len()
            ==> header.cells@.len() == headers.len(),
        header.cells@[at].use_ui_font == context.use_ui_font,
{
}

/// A heading resets its column exactly where it is known that the column can be resized.
pub proof fn headings_reset_resizable_columns<E, W: Copy>(
    header: HeaderLayout<E, W>,
    headers: Seq<E>,
    context: TableRenderContext<W>,
    behavior: Option<Seq<TableResizeBehavior>>,
    entity: Option<Seq<char>>,
    at: int,
)
    requires
        header.shows(headers, context, behavior, entity),
        0 <= at < header.cells@.len(),
    ensures
        behavior is None ==> !header.cells@[at].resets_column,
        behavior is Some ==> (header.cells@[at].resets_column == match behavior->0[at] {
            TableResizeBehavior::Fixed => false,
            TableResizeBehavior::Resizable => true,
            TableResizeBehavior::MinSize { .. } => true,
        }),
{
}

/// Each column has a space as wide as it is, each but the last a divider behind it, and the
/// divider can be dragged exactly where the column before it can be resized.
pub proof fn dividers_stand_between_columns<W>(
    widths: Seq<W>,
    behavior: Seq<TableResizeBehavior>,
    col: int,
)
    requires
        0 <= col < widths.len() <= usize::MAX,
        behavior.len() == widths.len(),
    ensures
        resize_elements(widths, behavior).len() + 1 == 2 * widths.len(),
        resize_elements(widths, behavior)[2 * col] == (ResizeElement::Spacer {
            width: widths[col],
        }),
        col + 1 < widths.len() ==> (resize_elements(widths, behavior)[2 * col
            + 1] matches ResizeElement::Divider { col_idx, is_resizable } && col_idx == col
            && is_resizable == (behavior[col] is Resizable || behavior[col] is MinSize)),
{
    let elements = resize_elements(widths, behavior);
    assert((2 * col) / 2 == col && (2 * col) % 2 == 0);
    assert((2 * col + 1) / 2 == col && (2 * col + 1) % 2 == 1);
}

/// Rows are drawn for places in the list only, never more of them than were made, and none is
/// left out while there is a place for it.
pub proof fn list_rows_fill_their_places(made: nat, first: nat, end: nat, more: nat)
    ensures
        listed_rows(made, first, end) <= made,
        first + listed_rows(made, first, end) <= end || listed_rows(made, first, end) == 0,
        listed_rows(made, first, end) < made ==> first + listed_rows(made, first, end) >= end,
        listed_rows(made, first, (first + made + more) as nat) == made,
{
}

/// A table that cannot be interacted with has no scrollbars, nothing by which its columns could be
/// resized, and nothing around it.
pub proof fn tables_without_interaction_stay_as_they_are<E, W: Copy>(
    layout: TableLayout<E, W>,
    table: Table<E, W>,
    context: TableRenderContext<W>,
    total: W,
    entity: Seq<char>,
)
    requires
        layout.shows(table, context, total, entity),
        table.interaction_state is None,
    ensures
        layout.scrollbars is Absent,
        layout.resize_handles is Absent,
        layout.wrapper is Plain,
        !layout.redistributes_columns,
        !layout.resizes_columns,
        layout.header matches Some(header) ==> header.element_id@ == "table-"@ && forall|i: int|
            0 <= i < header.cells@.len() ==> !(#[trigger] header.cells@[i]).resets_column,
        layout.body matches BodyLayout::UniformList { tracks_scroll, .. } ==> !tracks_scroll,
{
    assert("table-"@ + Seq::<char>::empty() =~= "table-"@);
}

/// What can be dragged does something: there are dividers exactly where dragging them resizes the
/// columns, in the way in which the columns are resized, and never between columns of fixed
/// widths. A table whose columns are resized one by one is scrolled as a whole.
pub proof fn dividers_do_something<E, W: Copy>(
    layout: TableLayout<E, W>,
    table: Table<E, W>,
    context: TableRenderContext<W>,
    total: W,
    entity: Seq<char>,
)
    requires
        layout.shows(table, context, total, entity),
        table.interaction_state is Some,
    ensures
        match table.column_width_config {
            ColumnWidthConfig::Static { .. } => layout.resize_handles is Absent
                && !layout.redistributes_columns && !layout.resizes_columns,
            ColumnWidthConfig::Redistributable { .. } => layout.resize_handles is Redistributable
                && layout.redistributes_columns && !layout.resizes_columns,
            ColumnWidthConfig::Resizable(_) => layout.resize_handles is Resizable
                && !layout.redistributes_columns && layout.resizes_columns && layout.table_width
                == Some(total),
        },
        layout.wrapper is HorizontalScroll == layout.resizes_columns,
        layout.wrapper is HorizontalScroll || layout.wrapper is Focusable,
        match layout.wrapper {
            TableWrapper::HorizontalScroll { entity_id } => entity_id
                == table.interaction_state->0.entity_id,
            TableWrapper::Focusable { entity_id } => entity_id
                == table.interaction_state->0.entity_id,
            TableWrapper::Plain => false,
        },
        match layout.scrollbars {
            BodyScrollbars::Custom(scrollbar) => table.interaction_state->0.custom_scrollbar
                == Some(scrollbar),
            BodyScrollbars::Both => table.interaction_state->0.custom_scrollbar is None,
            BodyScrollbars::Absent => false,
        },
        layout.header matches Some(header) ==> header.element_id@ == "table-"@ + entity,
{
}

/// Every row and the header that a table was given are drawn, each row in its place; rows that are
/// made as they are needed are drawn by a list of as many. The message in place of rows is shown
/// only where there are none.
pub proof fn everything_is_drawn<E, W: Copy>(
    layout: TableLayout<E, W>,
    table: Table<E, W>,
    context: TableRenderContext<W>,
    total: W,
    entity: Seq<char>,
    at: int,
)
    requires
        layout.shows(table, context, total, entity),
    ensures
        layout.header is Some == table.headers is Some,
        match table.rows {
            TableContents::Rows(rows) => layout.body matches BodyLayout::Rows(drawn)
                && drawn@.len() == rows@.len() && (0 <= at < drawn@.len()
                ==> drawn@[at].row_index == at && forall|i: int|
                0 <= i < drawn@[at].cells@.len() ==> (#[trigger] drawn@[at].cells@[i]).content
                    == rows@[at]@[i]),
            TableContents::UniformList { element_id, row_count } =>
                layout.body matches BodyLayout::UniformList {
                    element_id: name,
                    row_count: drawn,
                    sizing,
                    tracks_scroll,
                } && name == element_id && drawn == row_count && tracks_scroll == (
                table.interaction_state is Some) && sizing == table.column_width_config.sizing(),
            TableContents::VariableRowHeightList { row_count } =>
                layout.body matches BodyLayout::VariableRowHeightList { row_count: drawn } && drawn
                    == row_count,
        },
        layout.shows_empty_message ==> table.has_empty_message && (
        layout.body matches BodyLayout::Rows(drawn) ==> drawn@.len() == 0),
        table.has_empty_message && (table.rows matches TableContents::Rows(rows) && rows@.len()
            == 0) ==> layout.shows_empty_message,
{
}

} // verus!
