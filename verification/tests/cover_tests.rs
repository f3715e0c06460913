use spot_tty::cover::{placeholder_light, protocol_for, CellArea, CoverImage, ImageProtocol, RenderCache};

fn png_bytes() -> Vec<u8> {
    let img = image::RgbImage::from_pixel(2, 2, image::Rgb([10, 20, 30]));
    let mut png = Vec::new();
    image::DynamicImage::ImageRgb8(img)
        .write_to(&mut std::io::Cursor::new(&mut png), image::ImageFormat::Png)
        .unwrap();
    png
}

fn area() -> CellArea {
    CellArea { x: 4, y: 2, width: 6, height: 3 }
}

#[test]
fn protocol_follows_the_terminal() {
    assert_eq!(protocol_for("xterm-kitty", "", ""), ImageProtocol::Kitty);
    assert_eq!(protocol_for("xterm-256color", "", "3"), ImageProtocol::Kitty);
    assert_eq!(protocol_for("xterm-256color", "WezTerm", ""), ImageProtocol::Kitty);
    assert_eq!(protocol_for("wezterm", "", ""), ImageProtocol::Kitty);
    assert_eq!(protocol_for("xterm-256color", "iTerm.app", ""), ImageProtocol::Kitty);
    assert_eq!(protocol_for("xterm-ghostty", "Ghostty", ""), ImageProtocol::Kitty);
    assert_eq!(protocol_for("xterm-256color", "Warp", ""), ImageProtocol::HalfBlock);
    assert_eq!(protocol_for("xterm-256color", "Apple_Terminal", ""), ImageProtocol::HalfBlock);
}

#[test]
fn undecodable_bytes_give_no_cover() {
    assert!(CoverImage::from_bytes(b"not an image".to_vec(), 1).is_none());
}

#[test]
fn a_cover_is_uploaded_once_then_re_placed() {
    let raw = png_bytes();
    let img = CoverImage::from_bytes(raw.clone(), 0x0123_4567).unwrap();
    assert_eq!(img.kitty_id, 0x23_4567);
    assert_eq!(img.raw_b64, spot_tty::encoding::b64(&raw));
    let decoded = image::load_from_memory(&raw).unwrap();
    let mut png = Vec::new();
    decoded.write_to(&mut std::io::Cursor::new(&mut png), image::ImageFormat::Png).unwrap();
    assert_eq!(img.png_b64, spot_tty::encoding::b64(&png));
    let mut cache = RenderCache::new();
    cache.begin_frame();
    assert!(!img.render(area(), ImageProtocol::Kitty, &mut cache));
    let first = String::from_utf8(cache.pending.clone()).unwrap();
    let head = format!("\x1b[3;5H\x1b_Ga=T,f=100,i={},c=6,r=3,q=2,m=0;", 0x23_4567);
    assert!(first.starts_with(&head));
    assert!(first.ends_with("\x1b\\"));
    assert!(cache.uploaded.contains(&img.kitty_id));
    assert!(cache.already_placed(img.kitty_id, area()));
    // same frame, same place: nothing more
    let before = cache.pending.len();
    img.queue_kitty(area(), &mut cache);
    assert_eq!(cache.pending.len(), before);
    // next frame, same place: the terminal still shows it, nothing is sent
    cache.begin_frame();
    assert!(!cache.already_placed(img.kitty_id, area()));
    img.queue_kitty(area(), &mut cache);
    assert!(cache.pending.is_empty());
    assert!(cache.already_placed(img.kitty_id, area()));
    // a frame without it, then back: a short re-placement
    cache.begin_frame();
    cache.begin_frame();
    img.queue_kitty(area(), &mut cache);
    let again = String::from_utf8(cache.pending.clone()).unwrap();
    assert_eq!(again, format!("\x1b[3;5H\x1b_Ga=p,i={},c=6,r=3,q=2;\x1b\\", 0x23_4567));
    // moved to another place: re-placed there
    cache.begin_frame();
    let moved = CellArea { x: 0, y: 0, width: 6, height: 3 };
    img.queue_kitty(moved, &mut cache);
    let there = String::from_utf8(cache.pending.clone()).unwrap();
    assert_eq!(there, format!("\x1b[1;1H\x1b_Ga=p,i={},c=6,r=3,q=2;\x1b\\", 0x23_4567));
}

#[test]
fn iterm2_sends_the_raw_bytes_inline() {
    let raw = png_bytes();
    let img = CoverImage::from_bytes(raw.clone(), 7).unwrap();
    let mut cache = RenderCache::new();
    cache.begin_frame();
    assert!(!img.render(area(), ImageProtocol::ITerm2, &mut cache));
    let seq = String::from_utf8(cache.pending.clone()).unwrap();
    assert_eq!(
        seq,
        format!(
            "\x1b[3;5H\x1b]1337;File=inline=1;width=48px;height=48px;preserveAspectRatio=1;doNotMoveCursor=0:{}\x07",
            spot_tty::encoding::b64(&raw)
        )
    );
    let mut other = RenderCache::new();
    assert!(img.render(area(), ImageProtocol::HalfBlock, &mut other));
    assert!(other.pending.is_empty());
}

#[test]
fn long_images_are_sent_in_chunks() {
    let big = image::RgbImage::from_fn(64, 64, |x, y| image::Rgb([(x * 4) as u8, (y * 4) as u8, ((x * y) % 256) as u8]));
    let mut raw = Vec::new();
    image::DynamicImage::ImageRgb8(big)
        .write_to(&mut std::io::Cursor::new(&mut raw), image::ImageFormat::Png)
        .unwrap();
    let img = CoverImage::from_bytes(raw, 9).unwrap();
    let mut cache = RenderCache::new();
    cache.begin_frame();
    img.queue_kitty(area(), &mut cache);
    let text = String::from_utf8(cache.pending.clone()).unwrap();
    let chunks = (img.png_b64.len() + 4095) / 4096;
    assert_eq!(text.matches("\x1b_G").count(), chunks);
    if chunks > 1 {
        assert!(text.contains("m=1;"));
        assert!(text.contains("\x1b_Gm=0;"));
    }
}

#[test]
fn placeholder_alternates_like_a_checkerboard() {
    assert!(placeholder_light(0, 0));
    assert!(!placeholder_light(0, 1));
    assert!(placeholder_light(3, 5));
}

#[test]
fn a_jpeg_cover_is_re_encoded_as_png_for_kitty() {
    let img = image::RgbImage::from_pixel(4, 4, image::Rgb([200, 100, 50]));
    let mut jpeg = Vec::new();
    image::DynamicImage::ImageRgb8(img)
        .write_to(&mut std::io::Cursor::new(&mut jpeg), image::ImageFormat::Jpeg)
        .unwrap();
    let cover = CoverImage::from_bytes(jpeg.clone(), 3).unwrap();
    assert_eq!(cover.raw_b64, spot_tty::encoding::b64(&jpeg));
    assert_ne!(cover.png_b64, cover.raw_b64);
    let decoded = image::load_from_memory(&jpeg).unwrap();
    let mut png = Vec::new();
    decoded.write_to(&mut std::io::Cursor::new(&mut png), image::ImageFormat::Png).unwrap();
    assert!(png.starts_with(b"\x89PNG"));
    assert_eq!(cover.png_b64, spot_tty::encoding::b64(&png));
}
