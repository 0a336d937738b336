use zed_core::data_table;
use zed_core::data_table::{
    ColumnWidthConfig, ListHorizontalSizing, RedistributableColumns, ResizableColumnsState,
    RowBorder, StaticColumnWidths, Table, TableContents, TableInteractionState,
    TableRenderContext, TableResizeBehavior, TableRow,
};
use zed_core::table_preview;
use zed_core::table_preview::PreviewCell;
use zed_core::table_render;
use zed_core::table_render::{
    BodyLayout, BodyScrollbars, ResizableHeaderInfo, ResizeElement, ResizeHandles, TableWrapper,
};

fn table(rows: usize) -> Table<&'static str, u32> {
    let mut table = Table::new(2).header(vec!["h1", "h2"]);
    for _ in 0..rows {
        table = table.row(vec!["a", "b"]);
    }
    table
}

fn resizable() -> ResizableColumnsState<u32> {
    ResizableColumnsState::new(
        2,
        vec![100, 200],
        vec![TableResizeBehavior::Fixed, TableResizeBehavior::Resizable],
    )
}

#[test]
fn rows_have_as_many_cells_as_columns() {
    assert_eq!(TableRow::checked(vec![1, 2], 2).map(|row| row.cols()), Some(2));
    assert!(TableRow::checked(vec![1, 2], 3).is_none());
    let row = TableRow::new(vec![1, 2], 2);
    assert_eq!(*row.cell(1), 2);
    assert_eq!(row.into_vec(), [1, 2]);
}

#[test]
fn fixed_columns_cannot_be_resized() {
    assert!(!TableResizeBehavior::Fixed.is_resizable());
    assert!(TableResizeBehavior::Resizable.is_resizable());
    let bits = 5.0f32.to_bits();
    assert!(TableResizeBehavior::MinSize { rem_bits: bits }.is_resizable());
    assert_eq!(TableResizeBehavior::MinSize { rem_bits: bits }.min_size(), Some(bits));
    assert_eq!(TableResizeBehavior::Fixed.min_size(), None);
}

#[test]
fn columns_are_resized_one_by_one() {
    let mut state = resizable();
    state.resize(1, 250);
    assert_eq!(*state.widths().cell(0), 100);
    assert_eq!(*state.widths().cell(1), 250);
    state.on_double_click(1);
    assert_eq!(*state.widths().cell(1), 200);
    assert_eq!(state.cols(), 2);
}

#[test]
fn widths_depend_on_the_configuration() {
    let auto: ColumnWidthConfig<u32> = ColumnWidthConfig::auto();
    assert!(auto.widths_to_render().is_none());
    assert_eq!(auto.table_width(9), None);
    assert_eq!(auto.list_horizontal_sizing(), ListHorizontalSizing::FitList);
    let wide = ColumnWidthConfig::auto_with_table_width(400u32);
    assert_eq!(wide.table_width(9), Some(400));
    assert_eq!(wide.list_horizontal_sizing(), ListHorizontalSizing::Unconstrained);
    let explicit = ColumnWidthConfig::explicit(vec![1u32, 2]);
    assert_eq!(explicit.widths_to_render().map(|row| row.into_vec()), Some(vec![1, 2]));
    assert_eq!(explicit.table_width(9), None);
    let resized = ColumnWidthConfig::Resizable(resizable());
    assert_eq!(resized.table_width(300), Some(300));
    assert_eq!(resized.widths_to_render().map(|row| row.into_vec()), Some(vec![100, 200]));
}

#[test]
fn builders_set_what_they_say() {
    let built = table(0)
        .striped()
        .hide_row_borders()
        .hide_row_hover()
        .no_ui_font()
        .map_row()
        .empty_table_callback()
        .disable_base_style()
        .width(7);
    assert!(built.striped && built.maps_rows && built.has_empty_message);
    assert!(!built.show_row_borders && !built.show_row_hover && !built.use_ui_font);
    assert!(built.disable_base_cell_style);
    assert!(matches!(
        built.column_width_config,
        ColumnWidthConfig::Static { widths: StaticColumnWidths::Auto, table_width: Some(7) }
    ));
    let plain: Table<&'static str, u32> = Table::new(3);
    assert_eq!(plain.cols, 3);
    assert!(plain.rows.is_empty());
    assert!(plain.show_row_borders && plain.show_row_hover && plain.use_ui_font);
}

#[test]
fn lists_have_no_rows_of_their_own() {
    let mut listed = table(1).uniform_list("list".to_owned(), 40).row(vec!["only one"]);
    assert_eq!(listed.rows.len(), 40);
    assert!(listed.rows.rows_mut().is_none());
    let variable = table(1).variable_row_height_list(3);
    assert!(matches!(variable.rows, TableContents::VariableRowHeightList { row_count: 3 }));
    assert_eq!(table(2).rows.len(), 2);
}

#[test]
fn only_the_last_row_has_no_line() {
    let (layout, _) = table(3).render(0, "");
    let rows = match layout.body {
        BodyLayout::Rows(rows) => rows,
        other => panic!("unexpected {other:?}"),
    };
    let borders: Vec<RowBorder> = rows.iter().map(|row| row.border).collect();
    assert_eq!(borders, [RowBorder::Visible, RowBorder::Visible, RowBorder::Transparent]);
    assert!(rows.iter().all(|row| !row.has_background && row.shows_hover));
    assert_eq!(rows[1].row_index, 1);
    assert_eq!(rows[1].cells.len(), 2);
    assert_eq!(rows[1].cells[1].content, "b");
    assert!(rows[1].cells[1].base_style && rows[1].cells[1].use_ui_font);
}

#[test]
fn striped_tables_color_every_second_row() {
    let (layout, _) = table(3).striped().render(0, "");
    let rows = match layout.body {
        BodyLayout::Rows(rows) => rows,
        other => panic!("unexpected {other:?}"),
    };
    let colored: Vec<bool> = rows.iter().map(|row| row.has_background).collect();
    assert_eq!(colored, [false, true, false]);
    assert!(rows.iter().all(|row| row.border == RowBorder::Absent));
}

#[test]
fn cells_take_the_width_of_their_column() {
    let (layout, context) =
        table(1).width_config(ColumnWidthConfig::explicit(vec![10, 20])).render(0, "");
    assert_eq!(context.total_row_count, 1);
    let rows = match layout.body {
        BodyLayout::Rows(rows) => rows,
        other => panic!("unexpected {other:?}"),
    };
    assert_eq!(rows[0].cells[0].width, Some(10));
    assert_eq!(rows[0].cells[1].width, Some(20));
    let header = layout.header.expect("a header");
    assert_eq!(header.element_id, "table-");
    assert_eq!(header.cells[1].width, Some(20));
    assert!(!header.cells[1].resets_column);
}

#[test]
fn empty_tables_may_say_so() {
    let (layout, _) = table(0).render(0, "");
    assert!(!layout.shows_empty_message);
    let (layout, _) = table(0).empty_table_callback().render(0, "");
    assert!(layout.shows_empty_message);
    let (layout, _) = table(1).empty_table_callback().render(0, "");
    assert!(!layout.shows_empty_message);
}

#[test]
fn plain_tables_cannot_be_interacted_with() {
    let (layout, _) =
        table(1).width_config(ColumnWidthConfig::Resizable(resizable())).render(300, "");
    assert_eq!(layout.table_width, Some(300));
    assert_eq!(layout.resize_handles, ResizeHandles::Absent);
    assert_eq!(layout.scrollbars, BodyScrollbars::Absent);
    assert_eq!(layout.wrapper, TableWrapper::Plain);
    assert!(!layout.resizes_columns && !layout.redistributes_columns);
}

#[test]
fn interactive_tables_are_resized() {
    let (layout, _) = table(1)
        .width_config(ColumnWidthConfig::Resizable(resizable()))
        .interactable(TableInteractionState::new(5))
        .render(300, "5");
    assert!(layout.resizes_columns);
    assert_eq!(layout.wrapper, TableWrapper::HorizontalScroll { entity_id: 5 });
    assert_eq!(layout.scrollbars, BodyScrollbars::Both);
    let header = layout.header.expect("a header");
    assert_eq!(header.element_id, "table-5");
    assert!(!header.cells[0].resets_column);
    assert!(header.cells[1].resets_column);
    assert_eq!(
        layout.resize_handles,
        ResizeHandles::Resizable(table_render::render_resize_handles_resizable(&resizable()))
    );
}

#[test]
fn tables_without_a_header_need_no_resize_behavior() {
    let plain: Table<&'static str, u32> = Table::new(3).row(vec!["a", "b", "c"]);
    let (layout, _) = plain
        .width_config(ColumnWidthConfig::Resizable(resizable()))
        .interactable(TableInteractionState::new(5))
        .render(300, "");
    assert!(layout.header.is_none());
    assert!(layout.resizes_columns);
    let rows = match layout.body {
        BodyLayout::Rows(rows) => rows,
        other => panic!("unexpected {other:?}"),
    };
    assert_eq!(rows[0].cells.len(), 2);
    assert_eq!(rows[0].cells[1].width, Some(200));
}

#[test]
fn headers_are_drawn_as_far_as_columns_have_widths() {
    let wide: Table<&'static str, u32> = Table::new(3).header(vec!["h1", "h2", "h3"]);
    let (layout, _) = wide
        .width_config(ColumnWidthConfig::Resizable(resizable()))
        .interactable(TableInteractionState::new(5))
        .render(300, "");
    let header = layout.header.expect("a header");
    assert_eq!(header.cells.len(), 2);
    assert!(!header.cells[0].resets_column);
    assert!(header.cells[1].resets_column);
}

#[test]
fn tables_that_do_not_fit_are_not_drawable() {
    assert!(table(2).is_drawable());
    let mut ragged = table(1);
    ragged.cols = 3;
    assert!(!ragged.is_drawable());
    let mut short_row = table(0);
    short_row.rows = TableContents::Rows(vec![TableRow::new(vec!["a"], 1)]);
    assert!(!short_row.is_drawable());
    let uneven = || {
        ColumnWidthConfig::redistributable(RedistributableColumns {
            widths: TableRow::new(vec![1, 2], 2),
            resize_behavior: TableRow::new(vec![TableResizeBehavior::Fixed], 1),
        })
    };
    assert!(table(1).width_config(uneven()).is_drawable());
    let interactive = TableInteractionState::new(5);
    assert!(!table(1).width_config(uneven()).interactable(interactive).is_drawable());
    let plain: Table<&'static str, u32> = Table::new(2);
    assert!(plain.width_config(uneven()).interactable(interactive).is_drawable());
    let none = ColumnWidthConfig::Resizable(ResizableColumnsState::new(0, vec![], vec![]));
    let empty: Table<&'static str, u32> = Table::new(0);
    assert!(!empty.width_config(none).interactable(interactive).is_drawable());
}

#[test]
fn redistributed_columns_share_the_width() {
    let columns_state = RedistributableColumns {
        widths: TableRow::new(vec![1, 2], 2),
        resize_behavior: TableRow::new(
            vec![TableResizeBehavior::Resizable, TableResizeBehavior::Fixed],
            2,
        ),
    };
    let (layout, _) = table(1)
        .width_config(ColumnWidthConfig::redistributable(columns_state))
        .interactable(TableInteractionState::new(5).with_custom_scrollbar(6))
        .render(0, "");
    assert!(layout.redistributes_columns);
    assert_eq!(layout.resize_handles, ResizeHandles::Redistributable);
    assert_eq!(layout.scrollbars, BodyScrollbars::Custom(6));
    assert_eq!(layout.wrapper, TableWrapper::Focusable { entity_id: 5 });
    assert_eq!(layout.table_width, None);
}

#[test]
fn dividers_stand_between_the_columns() {
    let elements = table_render::render_resize_handles_resizable(&resizable());
    assert_eq!(
        elements,
        vec![
            ResizeElement::Spacer { width: 100 },
            ResizeElement::Divider { col_idx: 0, is_resizable: false },
            ResizeElement::Spacer { width: 200 },
        ]
    );
}

#[test]
fn columns_are_reset_by_a_double_click() {
    assert!(!table_render::click_resets_column(1));
    assert!(table_render::click_resets_column(2));
    assert!(table_render::click_resets_column(3));
}

#[test]
fn header_is_drawn_for_other_tables_too() {
    let context = TableRenderContext::for_column_widths(Some(TableRow::new(vec![3u32], 1)), false);
    let behavior = TableRow::new(
        vec![TableResizeBehavior::Resizable, TableResizeBehavior::Resizable],
        2,
    );
    let header = table_render::render_table_header(
        TableRow::new(vec!["a", "b"], 2),
        &context,
        Some(ResizableHeaderInfo { resize_behavior: &behavior }),
        None,
    );
    assert_eq!(header.cells.len(), 1);
    assert_eq!(header.cells[0].width, Some(3));
    assert!(header.cells[0].resets_column && !header.cells[0].use_ui_font);
}

#[test]
fn rows_of_a_list_are_drawn_from_where_it_is_scrolled_to() {
    let listed = table(0).uniform_list("list".to_owned(), 5);
    let context = TableRenderContext::new(&listed);
    let made = || vec![vec!["a", "b"], vec!["c", "d"]];
    let rows = table_render::render_list_rows(3, 5, made(), 2, &context);
    assert_eq!(rows.len(), 2);
    assert_eq!(rows[0].row_index, 3);
    assert_eq!(rows[1].row_index, 4);
    assert_eq!(rows[1].border, RowBorder::Transparent);
    let row = data_table::render_table_row(0, TableRow::new(vec!["x", "y"], 2), &context);
    assert_eq!(row.border, RowBorder::Visible);
    let (layout, _) = listed.render(0, "");
    assert_eq!(
        layout.body,
        BodyLayout::UniformList {
            element_id: "list".to_owned(),
            row_count: 5,
            sizing: ListHorizontalSizing::FitList,
            tracks_scroll: false,
        }
    );
}

#[test]
fn rows_beyond_the_view_are_left_out() {
    let context = TableRenderContext::new(&table(0).uniform_list("list".to_owned(), 1));
    let made = || vec![vec!["a", "b"], vec!["c", "d"]];
    let rows = table_render::render_list_rows(0, 1, made(), 2, &context);
    assert_eq!(rows.len(), 1);
    assert_eq!(rows[0].cells[0].content, "a");
    assert_eq!(rows[0].border, RowBorder::Transparent);
    assert_eq!(table_render::render_list_rows(0, 7, made(), 2, &context).len(), 2);
    assert!(table_render::render_list_rows(3, 3, made(), 2, &context).is_empty());
    assert!(table_render::render_list_rows(4, 3, made(), 2, &context).is_empty());
    let rows = table_render::render_list_rows(usize::MAX - 1, usize::MAX, made(), 2, &context);
    assert_eq!(rows.len(), 1);
    let none = TableRenderContext::new(&table(0).uniform_list("list".to_owned(), 0));
    assert!(table_render::render_list_rows(0, 0, made(), 2, &none).is_empty());
}

#[test]
fn tables_that_cannot_be_interacted_with_are_known_as_nothing() {
    let (layout, _) = table(1).render(0, "5");
    assert_eq!(layout.header.expect("a header").element_id, "table-");
}

#[test]
fn preview_shows_tables_of_three_kinds() {
    let groups = table_preview::preview();
    let titles: Vec<&str> = groups.iter().map(|group| group.title.as_str()).collect();
    assert_eq!(titles, ["Basic Tables", "Styled Tables", "Mixed Content Table"]);
    assert_eq!(groups[0].tables.len(), 2);
    assert_eq!(groups[1].tables.len(), 2);
    let mixed = &groups[2].tables[0].table;
    assert_eq!(mixed.cols, 5);
    assert!(mixed.show_row_borders && mixed.show_row_hover && mixed.use_ui_font);
    assert!(!mixed.maps_rows && !mixed.has_empty_message && !mixed.disable_base_cell_style);
    assert_eq!(mixed.interaction_state, None);
    assert_eq!(mixed.column_width_config.table_width(0), Some(840));
    assert!(groups[1].tables[1].table.striped && !groups[1].tables[0].table.striped);
    match &mixed.rows {
        TableContents::Rows(rows) => {
            assert!(rows.iter().any(|row| {
                (0..row.cols()).any(|at| matches!(row.cell(at), PreviewCell::ViewButton(_)))
            }));
        }
        other => panic!("unexpected {other:?}"),
    }
}
