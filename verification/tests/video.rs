use rustedbytes_bytepusher_rombuilder::video::{
    generate_bytepusher_palette, get_bytepusher_palette, process_png_sequence_flat,
    ProcessedFrame,
};

#[test]
fn test_palette_generation() {
    let palette = generate_bytepusher_palette();
    assert_eq!(palette.len(), 216);

    // The extremes of the cube.
    assert_eq!(palette[0], [0, 0, 0]);
    assert_eq!(palette[215], [255, 255, 255]);

    // Intermediate entries follow the 36*r + 6*g + b layout.
    assert_eq!(palette[35], [0, 255, 255]);
    assert_eq!(palette[210], [255, 255, 0]);
}

#[test]
fn test_processed_frame_structure() {
    let frame = ProcessedFrame {
        rgb_data: vec![255, 0, 0, 0, 255, 0, 0, 0, 255],
        width: 3,
        height: 1,
        frame_index: 0,
        file_name: "test.png".to_string(),
    };

    assert_eq!(frame.rgb_data.len(), 9);
    assert_eq!(frame.width, 3);
    assert_eq!(frame.height, 1);
    assert_eq!(frame.frame_index, 0);
    assert_eq!(frame.file_name, "test.png");
}

#[test]
fn palette_accessors_agree() {
    assert_eq!(get_bytepusher_palette(), generate_bytepusher_palette());
}

#[test]
fn flat_sequence_concatenates_frames() {
    let frames = vec![
        ProcessedFrame {
            rgb_data: vec![1, 2, 3],
            width: 3,
            height: 1,
            frame_index: 0,
            file_name: "a.png".to_string(),
        },
        ProcessedFrame {
            rgb_data: vec![4, 5],
            width: 2,
            height: 1,
            frame_index: 1,
            file_name: "b.png".to_string(),
        },
    ];
    assert_eq!(process_png_sequence_flat(&frames), vec![1, 2, 3, 4, 5]);
}

#[test]
fn flat_sequence_of_no_frames_is_empty() {
    let frames: Vec<ProcessedFrame> = Vec::new();
    assert_eq!(process_png_sequence_flat(&frames), Vec::<u8>::new());
}
