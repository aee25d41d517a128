use std::sync::Arc;

use vexora::player_model::{bytes_eq, next_zoom, PlayerModelState, PlayerModelWidget, SkinVariant};

fn png(width: u32, height: u32) -> Vec<u8> {
    let img = image::RgbaImage::new(width, height);
    let mut out = std::io::Cursor::new(Vec::new());
    img.write_to(&mut out, image::ImageFormat::Png).unwrap();
    out.into_inner()
}

#[test]
fn skin_is_decoded_once_and_reused() {
    let mut state = PlayerModelState::new(png(64, 64), SkinVariant::Classic);
    let first = state.skin_image().expect("skin decodes");
    assert_eq!(first.width(), 64);
    let second = state.skin_image().expect("skin decodes");
    assert!(Arc::ptr_eq(&first, &second));

    state.set_skin(png(64, 32));
    let third = state.skin_image().expect("skin decodes");
    assert!(!Arc::ptr_eq(&first, &third));
    assert_eq!(third.height(), 32);
}

#[test]
fn broken_skin_gives_no_image_and_keeps_cache() {
    let mut state = PlayerModelState::new(png(8, 8), SkinVariant::Slim);
    let good = state.skin_image().unwrap();
    state.set_skin(vec![1, 2, 3]);
    assert!(state.skin_image().is_none());
    state.set_skin(png(8, 8));
    let again = state.skin_image().unwrap();
    assert!(Arc::ptr_eq(&good, &again));
}

#[test]
fn cape_cache() {
    let mut state = PlayerModelState::new(png(64, 64), SkinVariant::Classic);
    assert!(state.cape_image().is_none());
    state.set_cape(Some(png(64, 32)));
    let c1 = state.cape_image().unwrap();
    let c2 = state.cape_image().unwrap();
    assert!(Arc::ptr_eq(&c1, &c2));
    state.set_cape(Some(vec![0]));
    assert!(state.cape_image().is_none());
    assert!(state.cape_image().is_none());
}

#[test]
fn zoom_steps_and_limits() {
    assert_eq!(next_zoom(100, 1), 105);
    assert_eq!(next_zoom(100, -1), 95);
    assert_eq!(next_zoom(52, -1), 50);
    assert_eq!(next_zoom(398, 1), 400);
    assert_eq!(next_zoom(1000, 0), 400);
    assert_eq!(next_zoom(0, 0), 50);
}

#[test]
fn byte_equality() {
    assert!(bytes_eq(&[1, 2], &[1, 2]));
    assert!(!bytes_eq(&[1, 2], &[1, 3]));
    assert!(!bytes_eq(&[1], &[1, 2]));
}

#[test]
fn setters_keep_the_cache_keyed_by_bytes() {
    let mut widget = PlayerModelWidget::new(png(4, 4), SkinVariant::Classic);
    let a = widget.state.skin_image().unwrap();
    widget.set_skin(png(4, 2), SkinVariant::Slim);
    assert_eq!(widget.get_variant(), SkinVariant::Slim);
    assert_eq!(widget.state.variant(), SkinVariant::Slim);
    let b = widget.state.skin_image().unwrap();
    assert!(!Arc::ptr_eq(&a, &b));
    widget.set_variant(SkinVariant::Classic);
    assert_eq!(widget.state.variant(), SkinVariant::Classic);
    assert!(Arc::ptr_eq(&b, &widget.state.skin_image().unwrap()));
    widget.set_skin_and_cape(png(4, 4), SkinVariant::Slim, Some(png(2, 2)));
    assert_eq!(widget.state.cape_image().unwrap().width(), 2);
    widget.set_cape(None);
    assert!(widget.state.cape_image().is_none());
}

#[test]
fn state_accessors_report_the_current_inputs() {
    let skin = png(4, 4);
    let mut state = PlayerModelState::new(skin.clone(), SkinVariant::Slim);
    assert_eq!(state.skin(), &skin[..]);
    assert!(state.cape().is_none());
    assert_eq!(state.variant(), SkinVariant::Slim);
    state.set_cape(Some(vec![7]));
    assert_eq!(state.cape(), Some(&vec![7]));
    state.set_variant(SkinVariant::Classic);
    assert_eq!(state.variant(), SkinVariant::Classic);
    let img = state.skin_image().unwrap();
    assert_eq!((img.width(), img.height()), (4, 4));
}
