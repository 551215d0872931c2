//! Build-time options of an image asset.
use vstd::prelude::*;

verus! {

/// The format of an image.
#[derive(Debug, PartialEq, Eq, Structural, PartialOrd, Clone, Copy, Hash)]
pub enum ImageType {
    /// A png image: no transparency, larger files than the other formats.
    Png,
    /// A jpg image: compresses better than png.
    Jpg,
    /// A webp image: compresses better than jpg.
    Webp,
    /// An avif image: compresses slightly better than webp, not supported by every browser.
    Avif,
    /// A format not known in advance.
    Unknown,
}

/// The size of an image asset.
#[derive(Debug, PartialEq, Eq, Structural, PartialOrd, Clone, Copy, Hash)]
pub enum ImageSize {
    /// A size in pixels.
    Manual {
        /// The width of the image in pixels.
        width: u32,
        /// The height of the image in pixels.
        height: u32,
    },
    /// The size is read from the image source.
    Automatic,
}

/// Options of an image asset, set one at a time by the `with_*` methods.
#[derive(Debug, PartialEq, Eq, Structural, PartialOrd, Clone, Copy, Hash)]
pub struct ImageAssetOptions {
    ty: ImageType,
    low_quality_preview: bool,
    size: ImageSize,
    preload: bool,
}

/// Options of an asset of any kind.
#[derive(Debug, PartialEq, Eq, Structural, PartialOrd, Clone, Copy, Hash)]
pub enum AssetOptions {
    /// The options of an image asset.
    Image(ImageAssetOptions),
}

/// The file extension of an image format, when the format is known.
pub open spec fn extension_of(ty: ImageType) -> Option<Seq<char>> {
    match ty {
        ImageType::Png => Some("png"@),
        ImageType::Jpg => Some("jpg"@),
        ImageType::Webp => Some("webp"@),
        ImageType::Avif => Some("avif"@),
        ImageType::Unknown => None,
    }
}

impl ImageAssetOptions {
    pub closed spec fn spec_format(&self) -> ImageType {
        self.ty
    }

    pub closed spec fn spec_size(&self) -> ImageSize {
        self.size
    }

    pub closed spec fn spec_preload(&self) -> bool {
        self.preload
    }

    pub closed spec fn spec_low_quality_preview(&self) -> bool {
        self.low_quality_preview
    }

    /// Options of an image of unknown format and automatic size, not preloaded.
    pub fn new() -> (r: Self)
        ensures
            r.spec_format() == ImageType::Unknown,
            r.spec_size() == ImageSize::Automatic,
            !r.spec_preload(),
            !r.spec_low_quality_preview(),
    {
        ImageAssetOptions {
            ty: ImageType::Unknown,
            low_quality_preview: false,
            size: ImageSize::Automatic,
            preload: false,
        }
    }

    /// These options, with the image preloaded or not.
    pub fn with_preload(self, preload: bool) -> (r: Self)
        ensures
            r.spec_preload() == preload,
            r.spec_format() == self.spec_format(),
            r.spec_size() == self.spec_size(),
            r.spec_low_quality_preview() == self.spec_low_quality_preview(),
    {
        Self { preload, ..self }
    }

    /// Whether the image is preloaded.
    pub fn preloaded(&self) -> (r: bool)
        ensures
            r == self.spec_preload(),
    {
        self.preload
    }

    /// These options, with the image in the given format.
    pub fn with_format(self, format: ImageType) -> (r: Self)
        ensures
            r.spec_format() == format,
            r.spec_preload() == self.spec_preload(),
            r.spec_size() == self.spec_size(),
            r.spec_low_quality_preview() == self.spec_low_quality_preview(),
    {
        Self { ty: format, ..self }
    }

    /// The format of the image.
    pub fn format(&self) -> (r: ImageType)
        ensures
            r == self.spec_format(),
    {
        self.ty
    }

    /// These options, with the image at the given size.
    pub fn with_size(self, size: ImageSize) -> (r: Self)
        ensures
            r.spec_size() == size,
            r.spec_format() == self.spec_format(),
            r.spec_preload() == self.spec_preload(),
            r.spec_low_quality_preview() == self.spec_low_quality_preview(),
    {
        Self { size, ..self }
    }

    /// The size of the image.
    pub fn size(&self) -> (r: ImageSize)
        ensures
            r == self.spec_size(),
    {
        self.size
    }

    /// These options as options of a generic asset.
    pub fn into_asset_options(self) -> (r: AssetOptions)
        ensures
            r == AssetOptions::Image(self),
    {
        AssetOptions::Image(self)
    }

    /// The file extension of the image's format, when the format is known.
    pub fn extension(&self) -> (r: Option<&'static str>)
        ensures
            match r {
                Some(e) => extension_of(self.spec_format()) == Some(e@),
                None => extension_of(self.spec_format()) is None,
            },
    {
        proof {
            reveal_strlit("png");
            reveal_strlit("jpg");
            reveal_strlit("webp");
            reveal_strlit("avif");
        }
        match self.ty {
            ImageType::Png => Some("png"),
            ImageType::Jpg => Some("jpg"),
            ImageType::Webp => Some("webp"),
            ImageType::Avif => Some("avif"),
            ImageType::Unknown => None,
        }
    }
}

impl Default for ImageAssetOptions {
    fn default() -> (r: Self)
        ensures
            r.spec_format() == ImageType::Unknown,
            r.spec_size() == ImageSize::Automatic,
            !r.spec_preload(),
            !r.spec_low_quality_preview(),
    {
        Self::new()
    }
}

} // verus!
