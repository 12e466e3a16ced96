//! Frame geometry of the emitter's stream.

use vstd::prelude::*;
use vstd::string::*;

verus! {

/// The longer side of the requested stream size.
pub open spec fn longer_side(target_width: u32, target_height: u32) -> u32 {
    if target_width >= target_height {
        target_width
    } else {
        target_height
    }
}

/// The size of a stream that keeps the source's aspect ratio and whose longer
/// side is `longer_side(target_width, target_height)`.
///
/// The other side is the exact quotient rounded down. A source without
/// height and width gives no second side, and a source of no width but some
/// height gives the widest stream that can be written down.
pub open spec fn fitted(width: u32, height: u32, target_width: u32, target_height: u32) -> (
    u32,
    u32,
) {
    let size = longer_side(target_width, target_height);
    if width >= height {
        if width == 0 {
            (size, 0u32)
        } else {
            (size, (size * height / (width as int)) as u32)
        }
    } else if size == 0 {
        (0u32, 0u32)
    } else if width == 0 || size * height / (width as int) > u32::MAX {
        (u32::MAX, size)
    } else {
        ((size * height / (width as int)) as u32, size)
    }
}

proof fn lemma_product_fits(a: u32, b: u32)
    ensures
        0 <= a * b <= u64::MAX,
{
    assert(0 <= a * b <= 0xffff_ffff * 0xffff_ffff) by (nonlinear_arith)
        requires
            0 <= a <= 0xffff_ffff,
            0 <= b <= 0xffff_ffff,
    ;
}

/// Scales a `width` x `height` source so that its longer side becomes the
/// longer of the two requested sides, keeping the aspect ratio.
pub fn aspect_fit(width: u32, height: u32, target_width: u32, target_height: u32) -> (fit: (
    u32,
    u32,
))
    ensures
        fit == fitted(width, height, target_width, target_height),
        width >= height ==> fit.1 <= fit.0,
{
    let size: u32 = if target_width >= target_height {
        target_width
    } else {
        target_height
    };
    if width >= height {
        if width == 0 {
            (size, 0)
        } else {
            proof {
                lemma_product_fits(size, height);
            }
            let scaled: u64 = (size as u64) * (height as u64) / (width as u64);
            assert(size * height / (width as int) <= size) by (nonlinear_arith)
                requires
                    0 < width,
                    height <= width,
                    0 <= size,
            ;
            (size, scaled as u32)
        }
    } else if size == 0 {
        (0, 0)
    } else if width == 0 {
        (u32::MAX, size)
    } else {
        proof {
            lemma_product_fits(size, height);
        }
        let scaled: u64 = (size as u64) * (height as u64) / (width as u64);
        if scaled > u32::MAX as u64 {
            (u32::MAX, size)
        } else {
            (scaled as u32, size)
        }
    }
}

/// A stream size that the emitter can be asked for.
#[derive(Clone, Copy, Debug, PartialEq, Eq)]
pub enum Resolution {
    HD1080,
    QHD1440,
    HD720,
    UHD2160,
}

/// Width and height of a resolution, in pixels.
pub open spec fn dimensions_of(resolution: Resolution) -> (u32, u32) {
    match resolution {
        Resolution::HD1080 => (1920u32, 1080u32),
        Resolution::QHD1440 => (2560u32, 1440u32),
        Resolution::HD720 => (1280u32, 720u32),
        Resolution::UHD2160 => (4096u32, 2160u32),
    }
}

/// The resolution that a name stands for: `1080p`, `1440p`, `720p` or `4K`.
pub open spec fn resolution_named(name: Seq<char>) -> Option<Resolution> {
    if name == "1080p"@ {
        Some(Resolution::HD1080)
    } else if name == "1440p"@ {
        Some(Resolution::QHD1440)
    } else if name == "720p"@ {
        Some(Resolution::HD720)
    } else if name == "4K"@ {
        Some(Resolution::UHD2160)
    } else {
        None
    }
}

/// The label under which a stream of the given height is filed: `1080p`
/// and `1440p` for those heights, `720p` for every other.
pub open spec fn label_of_height(height: u32) -> Seq<char> {
    if height == 1080 {
        "1080p"@
    } else if height == 1440 {
        "1440p"@
    } else {
        "720p"@
    }
}

impl Resolution {
    /// Width and height, in pixels.
    pub fn dimensions(&self) -> (size: (u32, u32))
        ensures
            size == dimensions_of(*self),
    {
        match self {
            Resolution::HD1080 => (1920, 1080),
            Resolution::QHD1440 => (2560, 1440),
            Resolution::HD720 => (1280, 720),
            Resolution::UHD2160 => (4096, 2160),
        }
    }

    /// Reads a resolution from its name; any other text gives `None`.
    pub fn parse(name: &str) -> (resolution: Option<Resolution>)
        ensures
            resolution == resolution_named(name@),
    {
        let name = String::from_str(name);
        if name == String::from_str("1080p") {
            Some(Resolution::HD1080)
        } else if name == String::from_str("1440p") {
            Some(Resolution::QHD1440)
        } else if name == String::from_str("720p") {
            Some(Resolution::HD720)
        } else if name == String::from_str("4K") {
            Some(Resolution::UHD2160)
        } else {
            None
        }
    }
}

/// The label under which a stream of the given height is filed.
pub fn resolution_label(height: u32) -> (label: &'static str)
    ensures
        label@ == label_of_height(height),
{
    if height == 1080 {
        "1080p"
    } else if height == 1440 {
        "1440p"
    } else {
        "720p"
    }
}

} // verus!
