use rscv::cv::{DataKind, MatMode};
use rscv::kind::MatKind;

const MODES: [(MatMode, usize); 7] = [
    (MatMode::Gray, 1),
    (MatMode::U8C1, 1),
    (MatMode::U8C2, 2),
    (MatMode::U8C3, 3),
    (MatMode::U8C4, 4),
    (MatMode::U32S3, 3),
    (MatMode::U32S4, 4),
];

#[test]
fn every_layout_has_its_channel_count() {
    for (mode, chan) in MODES {
        assert_eq!(mode.chan(), chan);
    }
}

#[test]
fn empty_pixels_are_zero_bytes() {
    let (chan, data) = MatMode::U8C3.kind::<u8>((2, 2));
    assert_eq!(chan, 3);
    assert_eq!(data, vec![0u8; 12]);
    let (chan, data) = MatMode::Gray.kind::<u8>((3, 5));
    assert_eq!(chan, 1);
    assert_eq!(data, vec![0u8; 15]);
}

#[test]
fn empty_pixels_are_zero_words() {
    let (chan, data) = MatMode::U32S3.kind::<u32>((2, 2));
    assert_eq!(chan, 3);
    assert_eq!(data, vec![0u32; 4]);
    let (chan, data) = MatMode::U32S4.kind::<u32>((4, 1));
    assert_eq!(chan, 4);
    assert_eq!(data, vec![0u32; 4]);
}

#[test]
fn byte_fill_keeps_the_low_channels() {
    let color = 0xaabb_ccdd;
    let (chan, data) = MatMode::U8C1.kind_color::<u8>((2, 1), color);
    assert_eq!((chan, data), (1, vec![0xdd, 0xdd]));
    let (chan, data) = MatMode::Gray.kind_color::<u8>((1, 2), color);
    assert_eq!((chan, data), (1, vec![0xdd, 0xdd]));
    let (chan, data) = MatMode::U8C2.kind_color::<u8>((2, 1), color);
    assert_eq!((chan, data), (2, vec![0xcc, 0xdd, 0xcc, 0xdd]));
    let (chan, data) = MatMode::U8C3.kind_color::<u8>((1, 2), color);
    assert_eq!((chan, data), (3, vec![0xbb, 0xcc, 0xdd, 0xbb, 0xcc, 0xdd]));
    let (chan, data) = MatMode::U8C4.kind_color::<u8>((2, 1), color);
    assert_eq!((chan, data), (4, vec![0xaa, 0xbb, 0xcc, 0xdd, 0xaa, 0xbb, 0xcc, 0xdd]));
}

#[test]
fn word_fill_repeats_the_word() {
    for (mode, chan) in MODES {
        let (n, data) = mode.kind_color::<u32>((3, 2), 0xaabb_ccdd);
        assert_eq!(n, chan);
        assert_eq!(data, vec![0xaabb_ccddu32; 6]);
    }
}

#[test]
fn fill_of_an_empty_grid_is_empty() {
    assert_eq!(<u8 as DataKind>::color(0x0102_0304, (0, 7), 3), Vec::<u8>::new());
    assert_eq!(<u8 as DataKind>::color(0x0102_0304, (7, 0), 4), Vec::<u8>::new());
    assert_eq!(<u32 as DataKind>::color(0x0102_0304, (0, 0), 1), Vec::<u32>::new());
}

#[test]
fn unsupported_channel_count_gives_no_data() {
    for chan in [0usize, 5, 6, 100, usize::MAX] {
        assert_eq!(<u8 as DataKind>::color(0x0102_0304, (2, 2), chan), Vec::<u8>::new());
        assert_eq!(<u32 as DataKind>::color(0x0102_0304, (2, 2), chan), Vec::<u32>::new());
        assert_eq!(<u8 as DataKind>::buffer(&vec![1, 2, 3, 4], chan), Vec::<u32>::new());
        assert_eq!(<u32 as DataKind>::buffer(&vec![1, 2, 3, 4], chan), Vec::<u32>::new());
        assert_eq!(<u8 as DataKind>::stride(chan), 0);
        assert_eq!(<u32 as DataKind>::stride(chan), 0);
    }
}

#[test]
fn a_cell_takes_a_byte_per_channel_or_one_word() {
    for chan in 1..=4usize {
        assert_eq!(<u8 as DataKind>::stride(chan), chan);
        assert_eq!(<u32 as DataKind>::stride(chan), 1);
    }
}

#[test]
fn the_zero_word_is_zero() {
    assert_eq!(<u8 as DataKind>::zero(), 0);
    assert_eq!(<u32 as DataKind>::zero(), 0);
}

#[test]
fn bytes_are_shown_with_zero_high_channels() {
    let data: Vec<u8> = vec![1, 2, 3, 4, 5, 6, 7, 8, 9, 10, 11, 12];
    assert_eq!(
        <u8 as DataKind>::buffer(&data, 1),
        vec![1u32, 2, 3, 4, 5, 6, 7, 8, 9, 10, 11, 12]
    );
    assert_eq!(
        <u8 as DataKind>::buffer(&data, 2),
        vec![0x0102u32, 0x0304, 0x0506, 0x0708, 0x090a, 0x0b0c]
    );
    assert_eq!(
        <u8 as DataKind>::buffer(&data, 3),
        vec![0x0001_0203u32, 0x0004_0506, 0x0007_0809, 0x000a_0b0c]
    );
    assert_eq!(
        <u8 as DataKind>::buffer(&data, 4),
        vec![0x0102_0304u32, 0x0506_0708, 0x090a_0b0c]
    );
}

#[test]
fn an_empty_buffer_shows_nothing() {
    for chan in 1..=4usize {
        assert_eq!(<u8 as DataKind>::buffer(&Vec::new(), chan), Vec::<u32>::new());
        assert_eq!(<u32 as DataKind>::buffer(&Vec::new(), chan), Vec::<u32>::new());
    }
}

#[test]
fn words_are_shown_as_they_are() {
    let data: Vec<u32> = vec![0xaabb_ccdd, 0, 0xffff_ffff, 7];
    for chan in 1..=4usize {
        assert_eq!(<u32 as DataKind>::buffer(&data, chan), data);
    }
}

#[test]
fn a_filled_byte_buffer_shows_the_low_channels_of_the_colour() {
    let color = 0xaabb_ccdd;
    let shown = [0x0000_00ddu32, 0x0000_ccdd, 0x00bb_ccdd, 0xaabb_ccdd];
    for chan in 1..=4usize {
        let data = <u8 as DataKind>::color(color, (3, 2), chan);
        assert_eq!(data.len(), 6 * chan);
        assert_eq!(<u8 as DataKind>::buffer(&data, chan), vec![shown[chan - 1]; 6]);
    }
}

#[test]
fn a_filled_word_buffer_shows_the_colour() {
    for color in [0u32, 0x00ff_8000, 0xaabb_ccdd, 0xffff_ffff] {
        for chan in 1..=4usize {
            let data = <u32 as DataKind>::color(color, (3, 2), chan);
            assert_eq!(<u32 as DataKind>::buffer(&data, chan), vec![color; 6]);
        }
    }
}

#[test]
fn one_channel_fill_shows_the_low_byte_at_every_pixel() {
    let (chan, data) = MatMode::U8C1.kind_color::<u8>((4, 4), 0xaabb_ccdd);
    let words = <u8 as DataKind>::buffer(&data, chan);
    assert_eq!(words, vec![0x0000_00ddu32; 16]);
}

#[test]
fn the_default_sample_layout_has_three_channels() {
    assert_eq!(MatKind::default(), MatKind::U8C3);
}

#[test]
fn a_layout_is_stored_in_bytes_by_default() {
    let element: <MatMode as rscv::cv::MatKind>::Kind = 0xffu8;
    assert_eq!(<u8 as DataKind>::buffer(&vec![element], 1), vec![0xffu32]);
}
