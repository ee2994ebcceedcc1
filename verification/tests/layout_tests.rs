use lazymagick::layout::{chunk_areas, Area};

#[test]
fn chunk_areas_divides_correctly() {
    let area = Area { x: 0, y: 0, width: 120, height: 30 };
    let areas = chunk_areas(area);

    assert_eq!(areas.title_bar.height, 1);
    assert_eq!(areas.title_bar.y, 0);

    assert_eq!(areas.status_bar.height, 1);
    assert_eq!(areas.status_bar.y, 29);

    assert_eq!(areas.log_panel.height, 8);

    let total_left_height = areas.recipe_panel.height + areas.file_panel.height;
    assert_eq!(total_left_height, 20);

    assert_eq!(areas.command_panel.height, 20);
}

#[test]
fn chunk_areas_widths_sum() {
    let area = Area { x: 0, y: 0, width: 120, height: 30 };
    let areas = chunk_areas(area);

    let left_w = areas.recipe_panel.width;
    let right_w = areas.command_panel.width;

    let total = left_w + right_w;
    assert!(
        total == 119 || total == 120 || total == 121,
        "left {left_w} + right {right_w} = {total}, expected ~120"
    );
}

#[test]
fn chunk_areas_stack_the_left_column() {
    let area = Area { x: 0, y: 0, width: 100, height: 40 };
    let areas = chunk_areas(area);
    assert_eq!(areas.recipe_panel.x, areas.file_panel.x);
    assert_eq!(areas.file_panel.y, areas.recipe_panel.y + areas.recipe_panel.height);
    assert_eq!(areas.log_panel.width, 100);
    assert_eq!(areas.title_bar.width, 100);
}
