use ruburu::errors::Error;
use ruburu::ident::Uuid;
use ruburu::models::Image;
use ruburu::store::Store;

fn png(width: u32, height: u32) -> Vec<u8> {
    let picture = image::RgbImage::from_pixel(width, height, image::Rgb([200, 30, 30]));
    let mut out = Vec::new();
    let encoder = image::codecs::png::PngEncoder::new(&mut out);
    image::ImageEncoder::write_image(
        encoder,
        picture.as_raw(),
        width,
        height,
        image::ColorType::Rgb8,
    )
    .unwrap();
    out
}

#[test]
fn an_image_is_stored_under_its_digest() {
    let mut store = Store::new();
    let bytes = png(400, 200);
    let image = Image::from_buf(&bytes, &mut store).unwrap();
    let digest = u128::from_be_bytes(md5::compute(&bytes).0);
    assert_eq!(image.hash(), Uuid(digest));
    assert_eq!(store.images, vec![image]);
    assert_eq!(store.originals.len(), 1);
    assert_eq!(store.originals[0].hash, image.hash());
    assert_eq!(store.originals[0].bytes, bytes);
    assert_eq!(store.thumbnails.len(), 1);
    assert_eq!(store.thumbnails[0].hash, image.hash());
}

#[test]
fn the_thumbnail_fits_the_box_and_keeps_the_ratio() {
    let mut store = Store::new();
    Image::from_buf(&png(400, 200), &mut store).unwrap();
    let small = image::load_from_memory(&store.thumbnails[0].bytes).unwrap();
    assert_eq!((small.width(), small.height()), (200, 100));
    assert_eq!(
        image::guess_format(&store.thumbnails[0].bytes).unwrap(),
        image::ImageFormat::Png
    );
    Image::from_buf(&png(50, 100), &mut store).unwrap();
    let grown = image::load_from_memory(&store.thumbnails[1].bytes).unwrap();
    assert_eq!((grown.width(), grown.height()), (100, 200));
}

#[test]
fn storing_the_same_bytes_twice_changes_nothing() {
    let mut store = Store::new();
    let bytes = png(30, 30);
    let first = Image::from_buf(&bytes, &mut store).unwrap();
    let files = (store.originals.clone(), store.thumbnails.clone(), store.images.clone());
    let second = Image::from_buf(&bytes, &mut store).unwrap();
    assert_eq!(first, second);
    assert_eq!((store.originals.clone(), store.thumbnails.clone(), store.images.clone()), files);
}

#[test]
fn different_bytes_get_different_records() {
    let mut store = Store::new();
    let one = Image::from_buf(&png(30, 30), &mut store).unwrap();
    let two = Image::from_buf(&png(31, 30), &mut store).unwrap();
    assert_ne!(one, two);
    assert_eq!(store.images.len(), 2);
}

#[test]
fn bytes_that_are_no_picture_are_refused() {
    let mut store = Store::new();
    let bytes = b"abcdefghijklmnopqrstuvwxyz";
    match Image::from_buf(bytes, &mut store) {
        Err(Error::Image(words)) => assert!(!words.is_empty()),
        other => panic!("{:?}", other),
    }
    assert!(store.images.is_empty());
    assert!(store.thumbnails.is_empty());
    assert_eq!(store.originals.len(), 1);
    assert_eq!(store.originals[0].hash, Uuid(0xc3fcd3d76192e4007dfb496cca67e13b));
    assert_eq!(store.originals[0].bytes, bytes.to_vec());
}

#[test]
fn record_takes_the_thumbnail_that_it_is_given() {
    let mut store = Store::new();
    let out = Image::record(Uuid(5), &[1, 2], Ok(vec![3]), &mut store);
    assert_eq!(out, Ok(Image { hash: Uuid(5) }));
    assert_eq!(store.thumbnails[0].bytes, vec![3]);
    let again = Image::record(Uuid(5), &[9], Err(Error::Image("x".to_string())), &mut store);
    assert_eq!(again, Ok(Image { hash: Uuid(5) }));
    assert_eq!(store.originals.len(), 1);
    let failed = Image::record(Uuid(6), &[9], Err(Error::Image("x".to_string())), &mut store);
    assert_eq!(failed, Err(Error::Image("x".to_string())));
    assert_eq!(store.originals.len(), 2);
    assert_eq!(store.images.len(), 1);
}

#[test]
fn paths_are_keyed_by_the_digest() {
    let image = Image { hash: Uuid(0xa1a2a3a4b1b2c1c2d1d2d3d4d5d6d7d8) };
    assert_eq!(image.uri(), "/images/a1a2a3a4-b1b2-c1c2-d1d2-d3d4d5d6d7d8");
    assert_eq!(image.original_path(), "./images/a1a2a3a4-b1b2-c1c2-d1d2-d3d4d5d6d7d8");
    assert_eq!(image.thumbnail_path(), "./thumbs/a1a2a3a4-b1b2-c1c2-d1d2-d3d4d5d6d7d8.png");
}

fn be32(bytes: &[u8], at: usize) -> u32 {
    u32::from_be_bytes([bytes[at], bytes[at + 1], bytes[at + 2], bytes[at + 3]])
}

#[test]
fn a_thumbnail_opens_as_a_png_within_the_box() {
    let small = Image::thumbnail(&png(400, 200)).unwrap();
    assert_eq!(&small[..8], &[137, 80, 78, 71, 13, 10, 26, 10]);
    assert_eq!((be32(&small, 16), be32(&small, 20)), (200, 100));
    let tall = Image::thumbnail(&png(3, 900)).unwrap();
    assert_eq!(&tall[..8], &[137, 80, 78, 71, 13, 10, 26, 10]);
    assert_eq!((be32(&tall, 16), be32(&tall, 20)), (1, 200));
    let same = Image::thumbnail(&png(200, 200)).unwrap();
    assert_eq!((be32(&same, 16), be32(&same, 20)), (200, 200));
    let tiny = Image::thumbnail(&png(1, 1)).unwrap();
    assert_eq!((be32(&tiny, 16), be32(&tiny, 20)), (200, 200));
}

#[test]
fn a_thumbnail_of_no_picture_is_a_fault_of_the_codec() {
    match Image::thumbnail(&[1, 2, 3]) {
        Err(Error::Image(words)) => assert!(!words.is_empty()),
        other => panic!("{:?}", other),
    }
}

#[test]
fn a_thumbnail_keeps_the_aspect_ratio() {
    for (w, h) in [(400i64, 200i64), (333, 77), (77, 333), (1000, 999), (5, 5), (640, 480), (2, 1000)] {
        let small = Image::thumbnail(&png(w as u32, h as u32)).unwrap();
        let tw = be32(&small, 16) as i64;
        let th = be32(&small, 20) as i64;
        let wide = tw == 200 && (th * w - h * 200).abs() < w;
        let tall = th == 200 && (tw * h - w * 200).abs() < h;
        assert!(wide || tall, "{}x{} became {}x{}", w, h, tw, th);
        assert!(1 <= tw && tw <= 200 && 1 <= th && th <= 200);
    }
}

#[test]
fn an_upload_succeeds_where_a_thumbnail_can_be_made() {
    let mut store = Store::new();
    assert!(Image::thumbnail(&png(8, 8)).is_ok());
    assert!(Image::from_buf(&png(8, 8), &mut store).is_ok());
    assert!(Image::thumbnail(b"no picture").is_err());
    assert!(Image::from_buf(b"no picture", &mut store).is_err());
    assert!(Image::from_buf(&png(8, 8), &mut store).is_ok());
}
