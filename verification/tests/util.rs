use xpic::util::{copy_image, first_extension, get_image_format, resolve_extension, with_extension, FormatError};

const PNG: &[u8] = b"\x89PNG\r\n\x1a\n\0\0\0\rIHDR";
const JPEG: &[u8] = &[0xff, 0xd8, 0xff, 0xe0, 0, 16, b'J', b'F', b'I', b'F'];

fn list(extensions: &[&str]) -> Vec<String> {
    extensions.iter().map(|e| e.to_string()).collect()
}

#[test]
fn format_is_found_by_content() {
    assert_eq!(get_image_format(PNG), Ok(list(&["png"])));
    assert_eq!(get_image_format(JPEG), Ok(list(&["jpg", "jpeg"])));
    assert_eq!(get_image_format(b"GIF89a..."), Ok(list(&["gif"])));
    assert_eq!(get_image_format(b"BM......"), Ok(list(&["bmp"])));
    assert_eq!(get_image_format(b"RIFF\x10\0\0\0WEBPVP8 "), Ok(list(&["webp"])));
    assert_eq!(get_image_format(b"II*\0"), Ok(list(&["tiff", "tif"])));
}

#[test]
fn unknown_content_has_no_format() {
    assert_eq!(get_image_format(b""), Err(FormatError::Unknown));
    assert_eq!(get_image_format(b"hello world"), Err(FormatError::Unknown));
    assert_eq!(get_image_format(&[0xff, 0xd8]), Err(FormatError::Unknown));
    assert_eq!(resolve_extension(b"hello world"), Err(FormatError::Unknown));
    assert_eq!(copy_image("name", b"hello world", true), Err(FormatError::Unknown));
}

#[test]
fn extension_is_the_first_of_the_format() {
    assert_eq!(resolve_extension(PNG), Ok("png".to_string()));
    assert_eq!(resolve_extension(JPEG), Ok("jpg".to_string()));
    assert_eq!(first_extension(&list(&["tiff", "tif"])), Ok("tiff".to_string()));
    assert_eq!(first_extension(&list(&["x"])), Ok("x".to_string()));
    assert_eq!(first_extension(&list(&[])), Err(FormatError::NoExtension));
}

#[test]
fn extension_is_added_or_replaced() {
    assert_eq!(with_extension("abc", "jpg"), "abc.jpg");
    assert_eq!(with_extension("abc.png", "jpg"), "abc.jpg");
    assert_eq!(with_extension("a.b.c", "jpg"), "a.b.jpg");
    assert_eq!(with_extension("abc.", "jpg"), "abc.jpg");
    assert_eq!(with_extension(".hidden", "jpg"), ".hidden.jpg");
    assert_eq!(with_extension(".hidden.png", "jpg"), ".hidden.jpg");
    assert_eq!(with_extension("", "jpg"), ".jpg");
    assert_eq!(with_extension("a", "jpg"), "a.jpg");
    assert_eq!(with_extension("bär.png", "jpg"), "bär.jpg");
    assert_eq!(with_extension("日本", "png"), "日本.png");
}

#[test]
fn copy_is_named_after_its_true_format() {
    let asset = "0a1b2c3d4e5f";
    assert_eq!(copy_image(asset, JPEG, true), Ok("0a1b2c3d4e5f.jpg".to_string()));
    assert_eq!(copy_image(asset, PNG, true), Ok("0a1b2c3d4e5f.png".to_string()));
    assert_eq!(copy_image("wrong.png", JPEG, true), Ok("wrong.jpg".to_string()));
    assert_eq!(copy_image("right.jpg", JPEG, true), Ok("right.jpg".to_string()));
    assert_eq!(copy_image(asset, JPEG, false), Ok(asset.to_string()));
    assert_eq!(copy_image(asset, b"no image", false), Ok(asset.to_string()));
}
