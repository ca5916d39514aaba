use std::io::Cursor;
use xpic::spotlight::{
    get_images, retain_large, select_images, AssetFile, LocalAsset, MIN_HEIGHT, MIN_WIDTH,
};

fn asset(path: &str, width: u32, height: u32) -> LocalAsset {
    LocalAsset { path: path.to_string(), width, height }
}

fn png(width: u32, height: u32) -> Vec<u8> {
    let mut bytes = Cursor::new(Vec::new());
    image::GrayImage::new(width, height).write_to(&mut bytes, image::ImageFormat::Png).unwrap();
    bytes.into_inner()
}

fn file(path: &str, bytes: Vec<u8>) -> AssetFile {
    AssetFile { path: path.to_string(), bytes }
}

#[test]
fn least_size_is_full_hd() {
    assert_eq!((MIN_WIDTH, MIN_HEIGHT), (1920, 1080));
}

#[test]
fn size_at_the_boundary() {
    assert!(asset("a", 1920, 1080).is_large_enough(1920, 1080));
    assert!(!asset("a", 1919, 1080).is_large_enough(1920, 1080));
    assert!(!asset("a", 1920, 1079).is_large_enough(1920, 1080));
    assert!(asset("a", 3840, 2160).is_large_enough(1920, 1080));
    assert!(!asset("a", 4000, 1000).is_large_enough(1920, 1080));
    assert!(!asset("a", 1080, 1920).is_large_enough(1920, 1080));
    assert!(asset("a", 0, 0).is_large_enough(0, 0));
}

#[test]
fn large_images_are_kept_in_order() {
    let assets = vec![
        asset("a", 1920, 1080),
        asset("b", 1919, 1080),
        asset("c", 1920, 1079),
        asset("d", 2000, 500),
        asset("e", 3840, 2160),
        asset("f", 1080, 1920),
        asset("g", 1921, 1081),
    ];
    assert_eq!(
        retain_large(assets, MIN_WIDTH, MIN_HEIGHT),
        vec![asset("a", 1920, 1080), asset("e", 3840, 2160), asset("g", 1921, 1081)]
    );
    assert_eq!(retain_large(vec![], 1, 1), vec![]);
    assert_eq!(
        retain_large(vec![asset("p", 1080, 1920)], 1080, 1920),
        vec![asset("p", 1080, 1920)]
    );
}

#[test]
fn files_are_decoded_and_filtered() {
    let files = vec![
        file("exact", png(1920, 1080)),
        file("narrow", png(1919, 1080)),
        file("broken", b"\x89PNG\r\n\x1a\nnot really".to_vec()),
        file("short", png(1920, 1079)),
        file("text", b"hello".to_vec()),
        file("empty", Vec::new()),
        file("large", png(2000, 1100)),
    ];
    assert_eq!(
        get_images(files, MIN_WIDTH, MIN_HEIGHT),
        vec![asset("exact", 1920, 1080), asset("large", 2000, 1100)]
    );
}

#[test]
fn least_size_is_the_callers() {
    let files = vec![file("a", png(3, 2)), file("b", png(2, 3)), file("c", png(4, 4))];
    assert_eq!(get_images(files, 3, 2), vec![asset("a", 3, 2), asset("c", 4, 4)]);
    assert_eq!(get_images(vec![], 0, 0), vec![]);
}

#[test]
fn file_that_cannot_be_decoded_is_dropped_and_the_others_stay() {
    let files = vec![
        file("a", png(1920, 1080)),
        file("b", b"not an image".to_vec()),
        file("c", png(3840, 2160)),
    ];
    assert_eq!(
        get_images(files, MIN_WIDTH, MIN_HEIGHT),
        vec![asset("a", 1920, 1080), asset("c", 3840, 2160)]
    );
}

#[test]
fn images_are_selected_by_the_sizes_given() {
    let files = || vec![file("a", vec![1]), file("b", vec![2]), file("c", vec![3])];
    assert_eq!(
        select_images(files(), vec![Some((1920, 1080)), None, Some((3840, 2160))], 1920, 1080),
        vec![asset("a", 1920, 1080), asset("c", 3840, 2160)]
    );
    assert_eq!(
        select_images(files(), vec![Some((1919, 1080)), Some((1920, 1080)), Some((1920, 1079))], 1920, 1080),
        vec![asset("b", 1920, 1080)]
    );
    assert_eq!(select_images(files(), vec![None, None, None], 0, 0), vec![]);
    assert_eq!(select_images(files(), vec![Some((9, 9)), Some((9, 9))], 0, 0), vec![]);
    assert_eq!(select_images(files(), vec![], 0, 0), vec![]);
    assert_eq!(select_images(vec![], vec![], 0, 0), vec![]);
}

#[test]
fn jpeg_files_are_decoded_too() {
    let mut bytes = Cursor::new(Vec::new());
    image::RgbImage::new(32, 16).write_to(&mut bytes, image::ImageFormat::Jpeg).unwrap();
    assert_eq!(get_images(vec![file("j", bytes.into_inner())], 32, 16), vec![asset("j", 32, 16)]);
}
