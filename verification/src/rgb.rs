//! A colour image as three grids of one shape, one per channel.
use vstd::prelude::*;
use crate::grid::Grid;
use crate::matrix::Matrix;

verus! {

/// The three channels of a colour image.
pub struct RgbModel {
    pub red: Grid,
    pub green: Grid,
    pub blue: Grid,
}

impl RgbModel {
    /// Whether the channels are grids of one shape.
    pub open spec fn wf(self) -> bool {
        &&& self.red.wf()
        &&& self.green.wf()
        &&& self.blue.wf()
        &&& self.red.same_shape(self.green)
        &&& self.red.same_shape(self.blue)
    }
}

/// A colour image held as three grids of samples: red, green and blue. All
/// three always have the same shape.
#[derive(Debug)]
pub struct RgbMatrices {
    red: Matrix,
    green: Matrix,
    blue: Matrix,
}

impl View for RgbMatrices {
    type V = RgbModel;

    closed spec fn view(&self) -> RgbModel {
        RgbModel { red: self.red@, green: self.green@, blue: self.blue@ }
    }
}

impl RgbMatrices {
    /// Whether the channels are stored grids of one shape. Every sample of
    /// such an image lies in the range of `i64`.
    pub open spec fn wf(&self) -> bool {
        self@.wf() && self@.red.fits() && self@.green.fits() && self@.blue.fits()
    }

    /// Makes the image of the given shape whose channels are 0 everywhere.
    pub fn new(height: usize, width: usize) -> (r: RgbMatrices)
        ensures
            r.wf(),
            r@.red == Grid::uniform(height as nat, width as nat, 0),
            r@.green == Grid::uniform(height as nat, width as nat, 0),
            r@.blue == Grid::uniform(height as nat, width as nat, 0),
    {
        RgbMatrices {
            red: Matrix::new(height, width),
            green: Matrix::new(height, width),
            blue: Matrix::new(height, width),
        }
    }

    /// Makes an image of three channels, which must have one shape;
    /// channels of different shapes give `None`.
    pub fn from_channels(red: Matrix, green: Matrix, blue: Matrix) -> (r: Option<RgbMatrices>)
        requires
            red.wf(),
            green.wf(),
            blue.wf(),
        ensures
            r.is_some() <==> red@.same_shape(green@) && red@.same_shape(blue@),
            r matches Some(image) ==> {
                &&& image.wf()
                &&& image@.red == red@
                &&& image@.green == green@
                &&& image@.blue == blue@
            },
    {
        if red.height() != green.height() || red.width() != green.width() {
            return None;
        }
        if red.height() != blue.height() || red.width() != blue.width() {
            return None;
        }
        Some(RgbMatrices { red, green, blue })
    }

    /// Returns the shape shared by the channels: the number of rows, then
    /// the number of columns.
    pub fn shape(&self) -> (r: (usize, usize))
        requires
            self.wf(),
        ensures
            r.0 == self@.red.height,
            r.1 == self@.red.width,
    {
        (self.red.height(), self.red.width())
    }

    /// Returns the red channel.
    pub fn red(&self) -> (r: &Matrix)
        requires
            self.wf(),
        ensures
            r.wf(),
            r@ == self@.red,
    {
        &self.red
    }

    /// Returns the green channel.
    pub fn green(&self) -> (r: &Matrix)
        requires
            self.wf(),
        ensures
            r.wf(),
            r@ == self@.green,
    {
        &self.green
    }

    /// Returns the blue channel.
    pub fn blue(&self) -> (r: &Matrix)
        requires
            self.wf(),
        ensures
            r.wf(),
            r@ == self@.blue,
    {
        &self.blue
    }
}

} // verus!
