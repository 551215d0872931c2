use mutation_stream::images::{AssetOptions, ImageAssetOptions, ImageSize, ImageType};

#[test]
fn new_options_are_unknown_and_automatic() {
    let o = ImageAssetOptions::new();
    assert_eq!(o.format(), ImageType::Unknown);
    assert_eq!(o.size(), ImageSize::Automatic);
    assert!(!o.preloaded());
    assert_eq!(o.extension(), None);
    assert_eq!(ImageAssetOptions::default(), o);
}

#[test]
fn setters_change_one_option() {
    let o = ImageAssetOptions::new()
        .with_preload(true)
        .with_format(ImageType::Webp)
        .with_size(ImageSize::Manual { width: 512, height: 256 });
    assert!(o.preloaded());
    assert_eq!(o.format(), ImageType::Webp);
    assert_eq!(o.size(), ImageSize::Manual { width: 512, height: 256 });
    let p = o.with_preload(false);
    assert!(!p.preloaded());
    assert_eq!(p.format(), ImageType::Webp);
}

#[test]
fn extensions_follow_format() {
    let o = ImageAssetOptions::new();
    assert_eq!(o.with_format(ImageType::Png).extension(), Some("png"));
    assert_eq!(o.with_format(ImageType::Jpg).extension(), Some("jpg"));
    assert_eq!(o.with_format(ImageType::Webp).extension(), Some("webp"));
    assert_eq!(o.with_format(ImageType::Avif).extension(), Some("avif"));
}

#[test]
fn into_asset_options_wraps_image() {
    let o = ImageAssetOptions::new().with_format(ImageType::Png);
    assert_eq!(o.into_asset_options(), AssetOptions::Image(o));
}
