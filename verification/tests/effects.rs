use bettershot::effects::{EffectKey, EffectKind, EffectTextures, Region, Request};
use bettershot::geometry::Rect;

/// The pixels of a 200 by 200 image that a rectangle covers.
fn region(x: f32, y: f32, w: f32, h: f32) -> Option<Region> {
    let (left, right) = (x.min(x + w), x.max(x + w));
    let (top, bottom) = (y.min(y + h), y.max(y + h));
    let clip = |v: f32| v.clamp(0.0, 200.0) as u32;
    let r = Region {
        x0: clip(left.floor()),
        y0: clip(top.floor()),
        x1: clip(right.ceil()),
        y1: clip(bottom.ceil()),
    };
    if right <= left || bottom <= top || r.x1 <= r.x0 || r.y1 <= r.y0 {
        None
    } else {
        Some(r)
    }
}

fn blur(x: f32, y: f32, w: f32, h: f32, radius: f32) -> Option<EffectKey> {
    EffectKey::new(region(x, y, w, h), EffectKind::Blur, radius.to_bits())
}

fn request(key: Option<EffectKey>) -> Request {
    Request { visible: true, key }
}

#[test]
fn an_invisible_or_empty_effect_is_never_cached() {
    assert!(blur(0.0, 0.0, 0.0, 0.0, 20.0).is_none());
    let mut cache = EffectTextures::new();
    let hidden = Request { visible: false, key: blur(0.0, 0.0, 10.0, 10.0, 0.1) };
    assert!(cache.ensure((200, 200), &[hidden, request(None)]).is_empty());
    assert!(cache.is_empty());
}

#[test]
fn identical_annotations_share_a_cache_key() {
    let a = blur(10.0, 10.0, 40.0, 40.0, 20.0);
    assert_eq!(a, blur(10.0, 10.0, 40.0, 40.0, 20.0));
    assert!(a.is_some());
}

#[test]
fn rectangles_covering_different_pixels_never_share_a_key() {
    let a = blur(0.6, 5.0, 30.0, 30.0, 20.0).unwrap();
    let b = blur(1.4, 5.0, 30.0, 30.0, 20.0).unwrap();
    assert_ne!(a, b, "different starting pixels must not share a texture");
    assert_ne!(a.covered(), b.covered());
}

#[test]
fn rectangles_covering_the_same_pixels_do_share_a_key() {
    let a = blur(4.1, 4.1, 10.2, 10.2, 20.0).unwrap();
    let b = blur(4.9, 4.9, 9.6, 9.6, 20.0).unwrap();
    assert_eq!(a, b);
    assert_eq!(a.covered(), b.covered());
    assert_eq!(a.covered(), Rect::from_xywh(4, 4, 11, 11));
}

#[test]
fn nearby_strengths_do_not_share_a_key() {
    assert_ne!(blur(0.0, 0.0, 10.0, 10.0, 20.0), blur(0.0, 0.0, 10.0, 10.0, 20.4));
}

#[test]
fn blur_and_pixelate_never_collide_at_the_same_strength() {
    let pixelate =
        EffectKey::new(region(0.0, 0.0, 10.0, 10.0), EffectKind::Pixelate, 20.0f32.to_bits());
    assert_ne!(blur(0.0, 0.0, 10.0, 10.0, 20.0), pixelate);
}

#[test]
fn moving_an_annotation_changes_its_key() {
    assert_ne!(blur(0.0, 0.0, 10.0, 10.0, 20.0), blur(1.0, 0.0, 10.0, 10.0, 20.0));
}

#[test]
fn a_backwards_rectangle_keys_the_same_as_its_normalised_form() {
    assert_eq!(blur(10.0, 10.0, -10.0, -10.0, 20.0), blur(0.0, 0.0, 10.0, 10.0, 20.0));
}

#[test]
fn a_preview_is_computed_once_and_dropped_when_unused() {
    let key = blur(0.0, 0.0, 10.0, 10.0, 20.0).unwrap();
    let other = blur(50.0, 50.0, 10.0, 10.0, 20.0).unwrap();
    let mut cache = EffectTextures::new();
    let missing = cache.ensure((200, 200), &[request(Some(key)), request(Some(other))]);
    assert_eq!(missing, [key, other]);
    cache.settle(&missing, &vec![true, false]);
    assert!(cache.texture_for(Some(key)));
    assert!(!cache.texture_for(Some(other)));
    assert_eq!(cache.image_size(), Some((200, 200)));

    let again = cache.ensure((200, 200), &[request(Some(key)), request(Some(other))]);
    assert!(again.is_empty(), "neither the preview nor the failure is tried again");
    cache.settle(&again, &Vec::new());

    let missing = cache.ensure((200, 200), &[]);
    cache.settle(&missing, &Vec::new());
    assert!(cache.is_empty());
}

#[test]
fn a_new_image_invalidates_every_preview() {
    let key = blur(0.0, 0.0, 10.0, 10.0, 20.0).unwrap();
    let mut cache = EffectTextures::new();
    let missing = cache.ensure((200, 200), &[request(Some(key))]);
    cache.settle(&missing, &vec![true]);
    assert_eq!(cache.ensure((100, 200), &[request(Some(key))]), [key]);
    cache.clear();
    assert!(cache.is_empty());
    assert_eq!(cache.image_size(), None);
}

#[test]
fn a_key_that_is_asked_for_twice_has_one_preview() {
    let key = blur(0.0, 0.0, 10.0, 10.0, 20.0).unwrap();
    let mut cache = EffectTextures::new();
    let missing = cache.ensure((200, 200), &[request(Some(key)), request(Some(key))]);
    cache.settle(&missing, &vec![true; missing.len()]);
    assert_eq!(cache.textures, [key]);
}
