use rayonetta::bitmap::{clamp, LoadFailure, RayonettaImage};
use rayonetta::texture::ImageTexture;

fn write_probe(path: &str) {
    // 3 x 2 image; pixel (x, y) is (10 x + 1, 20 y + 2, 30)
    let img = image::RgbImage::from_fn(3, 2, |x, y| {
        image::Rgb([(10 * x + 1) as u8, (20 * y + 2) as u8, 30])
    });
    img.save(path).unwrap();
}

#[test]
fn clamp_limits_both_ends() {
    assert_eq!(clamp(5, 0, 3), 3);
    assert_eq!(clamp(0, 1, 3), 1);
    assert_eq!(clamp(2, 1, 3), 2);
}

#[test]
fn missing_file_is_not_found() {
    match RayonettaImage::from_file("/nonexistent/dir/texture.png") {
        Err(msg) => assert_eq!(msg, "Image was not found."),
        Ok(_) => panic!("a missing file must not load"),
    }
}

#[test]
fn mislabelled_file_is_malformed() {
    // PNG bytes under a name that announces JPEG
    let path = "/tmp/rayonetta_probe_mislabelled.jpg";
    let img = image::RgbImage::from_fn(2, 2, |_, _| image::Rgb([1, 2, 3]));
    img.save_with_format(path, image::ImageFormat::Png).unwrap();
    match RayonettaImage::from_file(path) {
        Err(msg) => assert_eq!(msg, "Malformed Image."),
        Ok(_) => panic!("mislabelled bytes must not load"),
    }
}

#[test]
fn failure_messages() {
    assert_eq!(RayonettaImage::message_of(LoadFailure::NotFound), "Image was not found.");
    assert_eq!(RayonettaImage::message_of(LoadFailure::Malformed), "Malformed Image.");
}

#[test]
fn loaded_bitmap_reports_size_and_pixels() {
    let path = "/tmp/rayonetta_probe_pixels.png";
    write_probe(path);
    let img = RayonettaImage::from_file(path).unwrap();
    assert_eq!(img.width(), 3);
    assert_eq!(img.height(), 2);
    assert_eq!(img.pixel_data(0, 0), (1, 2, 30));
    assert_eq!(img.pixel_data(2, 1), (21, 22, 30));
    assert_eq!(img.pixel_data(1, 0), (11, 2, 30));
}

#[test]
fn lookups_past_the_edge_read_the_edge() {
    let path = "/tmp/rayonetta_probe_edges.png";
    write_probe(path);
    let img = RayonettaImage::from_file(path).unwrap();
    assert_eq!(img.pixel_data(3, 0), (21, 2, 30));
    assert_eq!(img.pixel_data(100, 2), (21, 22, 30));
    assert_eq!(img.pixel_data(0, u32::MAX), (1, 22, 30));
}

#[test]
fn image_texture_reads_texels() {
    let path = "/tmp/rayonetta_probe_texture.png";
    write_probe(path);
    let tex = ImageTexture::from_image(path).unwrap();
    assert_eq!(tex.source().width(), 3);
    assert_eq!(tex.texel(1, 1), Some((11, 22, 30)));
    assert_eq!(tex.texel(3, 2), Some((21, 22, 30)));
}

#[test]
fn image_texture_reports_missing_file() {
    match ImageTexture::from_image("/nonexistent/texture.jpg") {
        Err(msg) => assert_eq!(msg, "Image was not found."),
        Ok(_) => panic!("a missing file must not load"),
    }
}
