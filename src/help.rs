//! The long description of the command line tool.
use vstd::prelude::*;

verus! {

/// What follows the short description in the long one.
pub open spec fn long_about_body() -> Seq<char> {
    "
It uses one of two algorithms to calculate the palette: K-Means, or Median Cut.\n
You can generate:
  - a standalone image containing the palette colors
  - a json file containing the color details in:
     - HEX notation (e.g. #1a6b3f); and
     - the individual R,G, and B components;
  - a copy of the original image with the palette of colors along the bottom of the image."@
}

/// The long description: the short one, `about`, followed by the algorithms
/// used and the outputs that can be made.
pub fn long_about(about: &str) -> (r: String)
    ensures
        r@ == about@ + long_about_body(),
{
    let mut r = String::from_str(about);
    r.append(
        "
It uses one of two algorithms to calculate the palette: K-Means, or Median Cut.\n
You can generate:
  - a standalone image containing the palette colors
  - a json file containing the color details in:
     - HEX notation (e.g. #1a6b3f); and
     - the individual R,G, and B components;
  - a copy of the original image with the palette of colors along the bottom of the image.",
    );
    r
}

} // verus!
