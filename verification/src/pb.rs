//! The transform-specification model: one transform operation (`Spec`) and an
//! ordered chain of operations (`ImageSpec`). Order is significant: operations
//! apply left-to-right, each consuming the output of the previous one.

use vstd::prelude::*;

verus! {

/// How a resize is performed.
#[derive(Clone, Copy, Debug, PartialEq, Eq, Structural)]
pub enum ResizeType {
    /// Plain geometric scaling.
    Normal,
    /// Content-aware scaling (seam carving).
    SeamCarve,
}

/// The sampling filter used by a normal resize. `Undefined` is treated as
/// identity for that field (the engine picks its default), not as an error.
#[derive(Clone, Copy, Debug, PartialEq, Eq, Structural)]
pub enum SampleFilter {
    Undefined,
    Nearest,
    Triangle,
    CatmullRom,
    Gaussian,
    Lanczos3,
}

/// A named stylistic filter. `Unspecified` is a no-op.
#[derive(Clone, Copy, Debug, PartialEq, Eq, Structural)]
pub enum Filter {
    Unspecified,
    Oceanic,
    Islands,
    Marine,
}

/// A resize operation: target width and height, the resize kind, and the
/// sampling filter (meaningful only for a normal resize).
#[derive(Clone, Copy, Debug, PartialEq, Eq, Structural)]
pub struct Resize {
    pub width: u32,
    pub height: u32,
    pub rtype: ResizeType,
    pub filter: SampleFilter,
}

/// A watermark operation: where the fixed overlay asset is placed.
#[derive(Clone, Copy, Debug, PartialEq, Eq, Structural)]
pub struct Watermark {
    pub x: u32,
    pub y: u32,
}

/// The payload of one transform operation: exactly one variant.
#[derive(Clone, Copy, Debug, PartialEq, Eq, Structural)]
pub enum SpecData {
    Resize(Resize),
    Filter(Filter),
    Watermark(Watermark),
}

/// One transform operation. It always carries exactly one variant payload;
/// a serialized operation with no payload or an unknown tag is rejected by
/// the codec, never defaulted.
#[derive(Clone, Copy, Debug, PartialEq, Eq, Structural)]
pub struct Spec {
    pub data: SpecData,
}

/// An ordered chain of transform operations. The empty chain is legal and
/// denotes the identity transform. Duplicates and conflicting operations are
/// permitted and simply applied in sequence.
#[derive(Clone, Debug)]
pub struct ImageSpec {
    pub specs: Vec<Spec>,
}

impl View for ImageSpec {
    type V = Seq<Spec>;

    open spec fn view(&self) -> Seq<Spec> {
        self.specs@
    }
}

impl ImageSpec {
    /// Wraps an operation list as a chain, in the given order.
    pub fn new(specs: Vec<Spec>) -> (r: Self)
        ensures
            r@ == specs@,
    {
        Self { specs }
    }
}

impl PartialEq for ImageSpec {
    fn eq(&self, other: &ImageSpec) -> (r: bool)
    {
        if self.specs.len() != other.specs.len() {
            return false;
        }
        for i in 0..self.specs.len()
            invariant
                i <= self.specs.len(),
                self.specs.len() == other.specs.len(),
                forall|j: int| 0 <= j < i ==> self.specs@[j] == other.specs@[j],
        {
            if self.specs[i] != other.specs[i] {
                return false;
            }
        }
        proof {
            assert(self.specs@ =~= other.specs@);
        }
        true
    }
}

impl Eq for ImageSpec {}

impl vstd::std_specs::cmp::PartialEqSpecImpl for ImageSpec {
    open spec fn obeys_eq_spec() -> bool {
        true
    }

    open spec fn eq_spec(&self, other: &ImageSpec) -> bool {
        self.specs@ == other.specs@
    }
}

impl Spec {
    /// A content-aware resize to the given width and height; the sampling
    /// filter is left undefined, since seam carving does not sample.
    pub fn new_resize_seam_carve(width: u32, height: u32) -> (r: Self)
        ensures
            r.data == SpecData::Resize(Resize {
                width,
                height,
                rtype: ResizeType::SeamCarve,
                filter: SampleFilter::Undefined,
            }),
    {
        Self {
            data: SpecData::Resize(Resize {
                width,
                height,
                rtype: ResizeType::SeamCarve,
                filter: SampleFilter::Undefined,
            }),
        }
    }

    /// A normal resize to the given width and height with the given sampling
    /// filter.
    pub fn new_resize(width: u32, height: u32, filter: SampleFilter) -> (r: Self)
        ensures
            r.data == SpecData::Resize(Resize {
                width,
                height,
                rtype: ResizeType::Normal,
                filter,
            }),
    {
        Self {
            data: SpecData::Resize(Resize { width, height, rtype: ResizeType::Normal, filter }),
        }
    }

    /// A stylistic filter operation.
    pub fn new_filter(filter: Filter) -> (r: Self)
        ensures
            r.data == SpecData::Filter(filter),
    {
        Self { data: SpecData::Filter(filter) }
    }

    /// A watermark operation placing the overlay at the given offset.
    pub fn new_watermark(x: u32, y: u32) -> (r: Self)
        ensures
            r.data == SpecData::Watermark(Watermark { x, y }),
    {
        Self { data: SpecData::Watermark(Watermark { x, y }) }
    }
}

impl Filter {
    /// The engine-facing name of the filter, or `None` for `Unspecified`,
    /// which is a no-op.
    pub fn to_str(&self) -> (r: Option<&'static str>)
        ensures
            r is None <==> *self == Filter::Unspecified,
            *self == Filter::Oceanic ==> r == Some("oceanic"),
            *self == Filter::Islands ==> r == Some("islands"),
            *self == Filter::Marine ==> r == Some("marine"),
    {
        match self {
            Filter::Unspecified => None,
            Filter::Oceanic => Some("oceanic"),
            Filter::Islands => Some("islands"),
            Filter::Marine => Some("marine"),
        }
    }
}

impl From<SampleFilter> for Filter {
    /// The stylistic filter historically paired with a sampling filter; most
    /// sampling filters have no counterpart and map to `Unspecified`.
    fn from(value: SampleFilter) -> (r: Filter) {
        match value {
            SampleFilter::Undefined => Filter::Unspecified,
            SampleFilter::Nearest => Filter::Oceanic,
            SampleFilter::Triangle => Filter::Islands,
            SampleFilter::CatmullRom => Filter::Marine,
            SampleFilter::Gaussian => Filter::Unspecified,
            SampleFilter::Lanczos3 => Filter::Unspecified,
        }
    }
}

impl vstd::std_specs::convert::FromSpecImpl<SampleFilter> for Filter {
    open spec fn obeys_from_spec() -> bool {
        true
    }

    open spec fn from_spec(value: SampleFilter) -> Filter {
        match value {
            SampleFilter::Undefined => Filter::Unspecified,
            SampleFilter::Nearest => Filter::Oceanic,
            SampleFilter::Triangle => Filter::Islands,
            SampleFilter::CatmullRom => Filter::Marine,
            SampleFilter::Gaussian => Filter::Unspecified,
            SampleFilter::Lanczos3 => Filter::Unspecified,
        }
    }
}

} // verus!
