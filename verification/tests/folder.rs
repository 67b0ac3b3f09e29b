use tango::save::Chip;
use tango::{FolderView, GroupedChip};

fn chip(id: usize, code: char) -> Chip {
    Chip { id, code }
}

#[test]
fn grouping_counts_equal_chips_in_first_appearance_order() {
    let view = FolderView::new();
    let chips = vec![
        chip(1, 'A'),
        chip(2, 'B'),
        chip(1, 'A'),
        chip(3, '*'),
        chip(1, 'A'),
        chip(2, 'B'),
    ];
    let rows = view.grouped_folder_chips(&chips, None, None);
    // Three distinct chips, in the order they first appear; if the grouping
    // map handed its input back unchanged there would be six rows of one.
    assert_eq!(rows.len(), 3);
    assert_eq!(rows[0].0, chip(1, 'A'));
    assert_eq!(rows[0].1, GroupedChip { count: 3, is_regular: false, tag_count: 0 });
    assert_eq!(rows[1].0, chip(2, 'B'));
    assert_eq!(rows[1].1.count, 2);
    assert_eq!(rows[2].0, chip(3, '*'));
    assert_eq!(rows[2].1.count, 1);
}

#[test]
fn grouping_marks_regular_and_tag_positions() {
    let view = FolderView::new();
    let chips = vec![chip(5, 'C'), chip(6, 'D'), chip(6, 'D'), chip(7, 'E')];
    // The regular index also moves the first-stored chip into display slot
    // one: display order is [6D, 5C, 7E] with the second stored 6D replaced.
    let rows = view.grouped_folder_chips(&chips, Some(1), Some([0, 2]));
    assert_eq!(rows.len(), 3);
    assert_eq!(rows[0].0, chip(6, 'D'));
    assert_eq!(rows[0].1, GroupedChip { count: 1, is_regular: false, tag_count: 1 });
    assert_eq!(rows[1].0, chip(5, 'C'));
    assert_eq!(rows[1].1, GroupedChip { count: 1, is_regular: true, tag_count: 0 });
    assert_eq!(rows[2].0, chip(7, 'E'));
    assert_eq!(rows[2].1, GroupedChip { count: 1, is_regular: false, tag_count: 1 });
}

#[test]
fn grouping_same_id_different_codes_stay_apart() {
    let view = FolderView::new();
    let chips = vec![chip(1, 'A'), chip(1, 'B'), chip(1, 'A')];
    let rows = view.grouped_folder_chips(&chips, None, None);
    assert_eq!(rows.len(), 2);
    assert_eq!(rows[0].1.count, 2);
    assert_eq!(rows[1].1.count, 1);
}

#[test]
fn grouping_empty_folder() {
    let view = FolderView::new();
    let rows = view.grouped_folder_chips(&vec![], None, None);
    assert!(rows.is_empty());
}
