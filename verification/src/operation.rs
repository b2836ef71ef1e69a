//! The operations that a request can name.
use vstd::prelude::*;
use crate::text::same_text;

verus! {

/// A transform that the service offers.
#[derive(Clone, Copy, Debug, PartialEq, Eq, Structural)]
pub enum Operation {
    Grayscale,
    Brightness,
    Unsharpen,
    HueRotate,
    Blur,
    Contrast,
    FlipHorizontal,
    FlipVertical,
    Rotate90,
    Rotate180,
    Rotate270,
    Resize,
    Crop,
    Border,
}

/// A transform that this library picks, with its amount, and leaves to
/// whoever holds the image: one that computes in floating-point numbers, or
/// whose sums may pass the integers.
#[derive(Clone, Copy, Debug, PartialEq, Eq, Structural)]
pub enum Filter {
    /// Unsharp mask with the amount as sigma and with `threshold`.
    Unsharpen { threshold: i32 },
    /// Fast blur with the amount as sigma.
    Blur,
    /// Contrast adjusted by the amount.
    Contrast,
    /// The amount added to every colour sample, on an image whose samples
    /// are floating-point numbers or with an amount so large that a sum
    /// would be no `i32`.
    Brightness,
}

/// The threshold of every unsharp mask.
pub const UNSHARPEN_THRESHOLD: i32 = 2;

/// The operation that goes by `name`. Names are exact: case counts, and
/// nothing may stand around them.
pub open spec fn operation_named(name: Seq<char>) -> Option<Operation> {
    if name == "grayscale"@ {
        Some(Operation::Grayscale)
    } else if name == "brightness"@ {
        Some(Operation::Brightness)
    } else if name == "unsharpen"@ {
        Some(Operation::Unsharpen)
    } else if name == "huerotate"@ {
        Some(Operation::HueRotate)
    } else if name == "blur"@ {
        Some(Operation::Blur)
    } else if name == "contrast"@ {
        Some(Operation::Contrast)
    } else if name == "flip_horizontal"@ {
        Some(Operation::FlipHorizontal)
    } else if name == "flip_vertical"@ {
        Some(Operation::FlipVertical)
    } else if name == "rotate90"@ {
        Some(Operation::Rotate90)
    } else if name == "rotate270"@ {
        Some(Operation::Rotate270)
    } else if name == "rotate180"@ {
        Some(Operation::Rotate180)
    } else if name == "resize"@ {
        Some(Operation::Resize)
    } else if name == "crop"@ {
        Some(Operation::Crop)
    } else if name == "border"@ {
        Some(Operation::Border)
    } else {
        None
    }
}

impl Operation {
    /// The filter that this operation is on every image, where it is one.
    pub open spec fn filter(self) -> Option<Filter> {
        match self {
            Operation::Unsharpen => Some(Filter::Unsharpen { threshold: UNSHARPEN_THRESHOLD }),
            Operation::Blur => Some(Filter::Blur),
            Operation::Contrast => Some(Filter::Contrast),
            _ => None,
        }
    }

    /// Looks `name` up in the table of operations.
    pub fn from_name(name: &str) -> (r: Option<Operation>)
        ensures
            r == operation_named(name@),
    {
        if same_text(name, "grayscale") {
            Some(Operation::Grayscale)
        } else if same_text(name, "brightness") {
            Some(Operation::Brightness)
        } else if same_text(name, "unsharpen") {
            Some(Operation::Unsharpen)
        } else if same_text(name, "huerotate") {
            Some(Operation::HueRotate)
        } else if same_text(name, "blur") {
            Some(Operation::Blur)
        } else if same_text(name, "contrast") {
            Some(Operation::Contrast)
        } else if same_text(name, "flip_horizontal") {
            Some(Operation::FlipHorizontal)
        } else if same_text(name, "flip_vertical") {
            Some(Operation::FlipVertical)
        } else if same_text(name, "rotate90") {
            Some(Operation::Rotate90)
        } else if same_text(name, "rotate270") {
            Some(Operation::Rotate270)
        } else if same_text(name, "rotate180") {
            Some(Operation::Rotate180)
        } else if same_text(name, "resize") {
            Some(Operation::Resize)
        } else if same_text(name, "crop") {
            Some(Operation::Crop)
        } else if same_text(name, "border") {
            Some(Operation::Border)
        } else {
            None
        }
    }
}

} // verus!
