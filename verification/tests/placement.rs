use meowpdf::config::image_padding;
use meowpdf::geometry::DisplayRect;
use meowpdf::image::{DisplayCommand, IdAllocator, Image, TransferCommand};
use meowpdf::placement::{place_axis, Axis, AxisPlacement};
use meowpdf::viewer::TerminalSize;

fn terminal() -> TerminalSize {
    TerminalSize { width: 1000, height: 500, columns: 100, rows: 50 }
}

fn bitmap() -> Image {
    Image::from_parts(9, 200, 300, Vec::new())
}

#[test]
fn image_is_placed_with_the_border_filling_the_gap() {
    let rect = DisplayRect { x: 25, y: 37, width: 100, height: 150 };
    let command = bitmap().display(rect, 32, terminal()).unwrap();
    assert_eq!(
        command,
        DisplayCommand { id: 9, col: 3, row: 4, crop: (22, 18, 220, 320), cols: 11, rows: 16 }
    );
}

#[test]
fn image_that_begins_left_of_the_window_is_cut() {
    let rect = DisplayRect { x: -30, y: 0, width: 100, height: 150 };
    let command = bitmap().display(rect, 32, terminal()).unwrap();
    assert_eq!(command.col, 1);
    assert_eq!(command.cols, 7);
    assert_eq!(command.crop.0, 92);
    assert_eq!(command.crop.2, 140);
    assert_eq!(command.row, 1);
    assert_eq!(command.crop.1, 32);
    assert_eq!(command.crop.3, 300);
    assert_eq!(command.rows, 15);
}

#[test]
fn image_outside_the_window_is_not_displayed() {
    let image = bitmap();
    assert!(image.display(DisplayRect { x: 1001, y: 0, width: 10, height: 10 }, 32, terminal()).is_none());
    assert!(image.display(DisplayRect { x: 0, y: 501, width: 10, height: 10 }, 32, terminal()).is_none());
    assert!(image.display(DisplayRect { x: -11, y: 0, width: 10, height: 10 }, 32, terminal()).is_none());
    assert!(image.display(DisplayRect { x: 0, y: -11, width: 10, height: 10 }, 32, terminal()).is_none());
    assert!(image.display(DisplayRect { x: 1000, y: 500, width: 10, height: 10 }, 32, terminal()).is_some());
}

#[test]
fn image_without_height_on_screen_is_not_displayed() {
    let image = bitmap();
    assert!(image.display(DisplayRect { x: 0, y: 0, width: 10, height: 0 }, 32, terminal()).is_none());
    let empty = TerminalSize { width: 0, height: 0, columns: 0, rows: 0 };
    assert!(image.display(DisplayRect { x: 0, y: 0, width: 10, height: 10 }, 32, empty).is_none());
}

#[test]
fn border_too_small_for_the_gap_starts_at_zero() {
    let axis = Axis {
        pos: 9,
        len: 10,
        cells: 10,
        extent: 100,
        bitmap_len: 40,
        num: 4,
        den: 1,
        padding: 3,
    };
    // the gap of 9 screen pixels is 36 bitmap pixels, the border has 3
    let placed = place_axis(axis).unwrap();
    assert_eq!(placed, AxisPlacement { cell: 0, span: 2, crop_start: 0, crop_len: 80 });
}

#[test]
fn placement_reads_back_to_the_position() {
    // 7 pixels per cell, 3 bitmap pixels per 2 screen pixels
    for pos in 0..70 {
        let axis = Axis {
            pos,
            len: 50,
            cells: 20,
            extent: 140,
            bitmap_len: 75,
            num: 3,
            den: 2,
            padding: 16,
        };
        let placed = place_axis(axis).unwrap();
        let gap_in_screen_pixels = pos as usize - placed.cell * 7;
        let border_drawn = 16 - placed.crop_start;
        // border_drawn bitmap pixels are gap * 3 / 2, rounded up
        assert!(border_drawn * 2 >= gap_in_screen_pixels * 3);
        assert!(border_drawn * 2 < gap_in_screen_pixels * 3 + 2);
    }
}

#[test]
fn check_draws_one_pixel_of_the_border() {
    assert_eq!(
        bitmap().check(),
        DisplayCommand { id: 9, col: 1, row: 1, crop: (1, 1, 1, 1), cols: 2, rows: 2 }
    );
}

#[test]
fn transfer_announces_the_bordered_size() {
    assert_eq!(
        bitmap().transfer(32),
        Some(TransferCommand { id: 9, width: 264, height: 364, alpha: true })
    );
    assert_eq!(bitmap().transfer(usize::MAX / 2), None);
}

#[test]
fn new_image_gets_alpha_and_border() {
    let samples = [1u8, 2, 3, 4, 5, 6];
    let image = Image::new(5, 2, 1, 3, &samples, 1).unwrap();
    assert_eq!(image.id(), 5);
    assert_eq!(image.dimensions(), (2, 1));
    assert_eq!(image.size(), 4 * 3 * 4);
    let mut expected = vec![0u8; 48];
    expected[20..24].copy_from_slice(&[1, 2, 3, 255]);
    expected[24..28].copy_from_slice(&[4, 5, 6, 255]);
    assert_eq!(image.data(), &expected);
}

#[test]
fn new_image_keeps_an_alpha_channel() {
    let samples = [1u8, 2, 3, 40, 5, 6, 7, 80];
    let image = Image::new(1, 1, 2, 4, &samples, 0).unwrap();
    assert_eq!(image.data(), &samples.to_vec());
    let image = Image::new(1, 1, 2, 4, &samples, 1).unwrap();
    assert_eq!(image.size(), 3 * 4 * 4);
    assert_eq!(&image.data()[16..20], &[1, 2, 3, 40]);
    assert_eq!(&image.data()[28..32], &[5, 6, 7, 80]);
    assert_eq!(&image.data()[20..28], &[0; 8]);
}

#[test]
fn new_image_refuses_samples_that_do_not_match() {
    assert!(Image::new(1, 2, 2, 3, &[0; 11], 1).is_none());
    assert!(Image::new(1, 2, 2, 2, &[0; 8], 1).is_none());
    assert!(Image::new(1, 2, 2, 5, &[0; 20], 1).is_none());
    assert!(Image::new(1, 0, 0, 3, &[], usize::MAX / 2).is_none());
    assert!(Image::new(1, 0, 0, 3, &[], 2).is_some());
}

#[test]
fn identifiers_are_never_reused() {
    let mut ids = IdAllocator::new();
    assert_eq!(ids.allocate(), Some(1));
    assert_eq!(ids.allocate(), Some(2));
    assert_eq!(ids.allocate(), Some(3));
}

#[test]
fn padding_covers_a_cell_at_the_minimal_scale() {
    // cells of 10 by 20 pixels, precision 1.5, minimal scale 0.2: 20 * 7.5
    assert_eq!(image_padding(1000, 1000, 100, 50, 1500, 200), Some(150));
    // 7 / 3 pixels per column and row, precision 1, minimal scale 1
    assert_eq!(image_padding(7, 7, 3, 3, 1000, 1000), Some(3));
    assert_eq!(image_padding(1000, 1000, 0, 50, 1500, 200), None);
    assert_eq!(image_padding(1000, 1000, 100, 0, 1500, 200), None);
    assert_eq!(image_padding(1000, 1000, 100, 50, 1500, 0), None);
}
