use raytracer::color::{write_color, CHANNEL_ONE};
use raytracer::frame::{blank_row, Frame};

#[test]
fn blank_row_is_black() {
    assert_eq!(blank_row(3), vec![0u8; 9]);
    assert_eq!(blank_row(0), Vec::<u8>::new());
}

#[test]
fn new_frame_is_black() {
    let f = Frame::new(2, 3);
    assert_eq!(f.width(), 2);
    assert_eq!(f.height(), 3);
    assert_eq!(f.to_bytes(), vec![0u8; 18]);
}

#[test]
fn camera_rows_count_from_bottom() {
    let f = Frame::new(4, 3);
    assert_eq!(f.camera_row(0), 2);
    assert_eq!(f.camera_row(1), 1);
    assert_eq!(f.camera_row(2), 0);
}

#[test]
fn rows_are_read_out_top_first() {
    let mut f = Frame::new(2, 2);
    f.set_row(1, vec![1, 2, 3, 4, 5, 6]);
    f.set_row(0, vec![7, 8, 9, 10, 11, 12]);
    assert_eq!(f.to_bytes(), vec![7, 8, 9, 10, 11, 12, 1, 2, 3, 4, 5, 6]);
}

#[test]
fn rows_filled_out_of_order() {
    let (w, h) = (3usize, 4usize);
    let mut f = Frame::new(w, h);
    for row in [2usize, 0, 3, 1] {
        let mut data = blank_row(w);
        for i in 0..w {
            let level = (f.camera_row(row) * w + i) as u64;
            write_color(&mut data, i, [level * level, 0, CHANNEL_ONE], 1);
        }
        f.set_row(row, data);
    }
    let bytes = f.to_bytes();
    assert_eq!(bytes.len(), 3 * w * h);
    for row in 0..h {
        for i in 0..w {
            let level = ((h - 1 - row) * w + i) as u8;
            let at = 3 * (row * w + i);
            assert_eq!(&bytes[at..at + 3], &[level, 0, 255]);
        }
    }
}
