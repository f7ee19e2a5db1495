//! The transform engine: holds decoded image state, applies a transform chain
//! in order (left to right, each operation consuming the previous output) and
//! re-encodes the result in a requested output format. The pixel-level work
//! is delegated to the photon image-manipulation library behind trusted
//! wrappers; what the library verifies is the engine's execution contract:
//! operations are applied in chain order, dimensions evolve as each operation
//! prescribes, and re-encoding is attempted only on states the encoders
//! accept — out-of-range dimensions are rejected as a `TransformError`, never
//! a panic. The accepted range is the encodable one: one to `0xffff` pixels
//! a side.

use vstd::prelude::*;

use crate::codec::DecodeError;
use crate::pb::{Filter, Resize, ResizeType, SampleFilter, Spec, SpecData, Watermark};

verus! {

/// Failure to apply or re-encode: a dimension outside the range the engine
/// can process.
#[derive(Clone, Copy, Debug, PartialEq, Eq, Structural)]
pub enum TransformError {
    DimensionOutOfRange,
}

/// The requested output encoding: JPEG at the given quality (clamped by the
/// encoder to its meaningful range), or PNG.
#[derive(Clone, Copy, Debug, PartialEq, Eq, Structural)]
pub enum OutputFormat {
    Jpeg(u8),
    Png,
}

/// A transform engine: ingests raw image bytes, applies operations, and
/// re-encodes. Implementations are free to exist beside [`Photon`]; call
/// sites do not change, and every implementation owes the same execution
/// contract: a chain is applied in order, left to right, the dimensions
/// evolving operation by operation, and re-encoding succeeds exactly on
/// encodable dimensions.
pub trait Engine: Sized {
    /// The pixel width of the engine's current image state.
    spec fn width_of(&self) -> u32;

    /// The pixel height of the engine's current image state.
    spec fn height_of(&self) -> u32;

    /// Applies the operations to the image, in order, left to right.
    /// Succeeds exactly when the chain applies cleanly from the current
    /// dimensions; the dimensions then end at `dims_after`.
    fn apply(&mut self, specs: &[Spec]) -> (r: Result<(), TransformError>)
        ensures
            r is Ok <==> chain_ok(old(self).width_of(), old(self).height_of(), specs@),
            r is Ok ==> ({
                let d = dims_after(old(self).width_of(), old(self).height_of(), specs@);
                final(self).width_of() == d.0 && final(self).height_of() == d.1
            }),
            r is Err ==> r->Err_0 == TransformError::DimensionOutOfRange,
    ;

    /// Re-encodes the current image state in the given format, consuming the
    /// engine. Succeeds exactly when the dimensions are encodable.
    fn generate(self, format: OutputFormat) -> (r: Result<Vec<u8>, TransformError>)
        ensures
            r is Ok <==> dim_ok(self.width_of()) && dim_ok(self.height_of()),
            r is Err ==> r->Err_0 == TransformError::DimensionOutOfRange,
    ;
}

/// One transform capability: how an engine applies one kind of operation.
pub trait SpecTransform<T> {
    /// Transforms the image with the given operation.
    fn transform(&mut self, op: T) -> Result<(), TransformError>;
}

/// The concrete engine, delegating pixel work to photon.
#[verifier::external_body]
pub struct Photon {
    img: photon_rs::PhotonImage,
}

/// The pixel width of the engine's current image state: what photon's
/// `get_width` returns.
pub uninterp spec fn engine_width(p: Photon) -> u32;

/// The pixel height of the engine's current image state: what photon's
/// `get_height` returns.
pub uninterp spec fn engine_height(p: Photon) -> u32;

/// The raw RGBA pixel buffer of the engine's current image state, four bytes
/// a pixel: what photon's transforms read and rewrite.
pub uninterp spec fn engine_state(p: Photon) -> Seq<u8>;

/// Whether `photon_rs::native::open_image_from_bytes` reads the bytes as a
/// supported image container; it depends on the bytes alone.
pub uninterp spec fn opens(b: Seq<u8>) -> bool;

/// The RGBA pixels that a supported container decodes to.
pub uninterp spec fn decoded_rgba(b: Seq<u8>) -> Seq<u8>;

/// The pixel width that a supported container decodes to.
pub uninterp spec fn decoded_width(b: Seq<u8>) -> u32;

/// The pixel height that a supported container decodes to.
pub uninterp spec fn decoded_height(b: Seq<u8>) -> u32;

/// What `photon_rs::transform::resize` returns for the given pixels,
/// dimensions, targets and sampling filter; a pure function of its arguments.
pub uninterp spec fn resized_of(
    state: Seq<u8>,
    w: u32,
    h: u32,
    tw: u32,
    th: u32,
    f: SampleFilter,
) -> Seq<u8>;

/// What `photon_rs::transform::seam_carve` returns for the given pixels,
/// dimensions and targets; a pure function of its arguments.
pub uninterp spec fn carved_of(state: Seq<u8>, w: u32, h: u32, tw: u32, th: u32) -> Seq<u8>;

/// What `photon_rs::filters::filter` makes of the given pixels under the
/// named filter; a pure function of its arguments.
pub uninterp spec fn filtered_of(state: Seq<u8>, w: u32, h: u32, name: Seq<char>) -> Seq<u8>;

/// What `photon_rs::multiple::watermark` makes of the given pixels when the
/// given overlay is placed at the offset; a pure function of its arguments.
pub uninterp spec fn watermarked_of(
    state: Seq<u8>,
    w: u32,
    h: u32,
    mark: Seq<u8>,
    mw: u32,
    mh: u32,
    x: u32,
    y: u32,
) -> Seq<u8>;

/// The JPEG bytes `photon_rs::PhotonImage::get_bytes_jpeg` encodes from the
/// given pixels at the given quality; a pure function of its arguments.
pub uninterp spec fn jpeg_of(state: Seq<u8>, w: u32, h: u32, quality: u8) -> Seq<u8>;

/// The PNG bytes `photon_rs::PhotonImage::get_bytes` encodes from the given
/// pixels; a pure function of its arguments.
pub uninterp spec fn png_of(state: Seq<u8>, w: u32, h: u32) -> Seq<u8>;

/// The mathematical state of an engine: its pixels and its dimensions.
pub ghost struct EngineModel {
    pub state: Seq<u8>,
    pub width: u32,
    pub height: u32,
}

/// The model of a photon engine's current state.
pub open spec fn model_of(p: Photon) -> EngineModel {
    EngineModel { state: engine_state(p), width: engine_width(p), height: engine_height(p) }
}

/// The model an engine starts from after ingesting source bytes.
pub open spec fn decoded_model(b: Seq<u8>) -> EngineModel {
    EngineModel { state: decoded_rgba(b), width: decoded_width(b), height: decoded_height(b) }
}

/// The sampling filter actually used by a normal resize: an undefined filter
/// is resolved to nearest before the engine is asked to sample.
pub open spec fn effective_filter(f: SampleFilter) -> SampleFilter {
    if f == SampleFilter::Undefined {
        SampleFilter::Nearest
    } else {
        f
    }
}

/// The engine-facing name of a stylistic filter; `Unspecified` has none and
/// is never handed to the engine.
pub open spec fn filter_name(f: Filter) -> Seq<char> {
    match f {
        Filter::Unspecified => Seq::empty(),
        Filter::Oceanic => "oceanic"@,
        Filter::Islands => "islands"@,
        Filter::Marine => "marine"@,
    }
}

/// The fixed watermark overlay: a 16-by-16 translucent white square, as raw
/// RGBA bytes.
pub open spec fn overlay_state() -> Seq<u8> {
    Seq::new(1024, |i: int| if i % 4 == 3 { 128u8 } else { 255u8 })
}

/// A dimension the engine accepts: positive, and within what the output
/// encoders take (the JPEG container caps a side at `0xffff`).
pub open spec fn dim_ok(d: u32) -> bool {
    1 <= d <= 0xffff
}

/// How one operation changes the image dimensions: a normal resize yields
/// exactly the target; a seam carve only shrinks, to the smaller of current
/// and target per axis; filters and watermarks leave dimensions alone.
pub open spec fn dims_step(d: (u32, u32), s: Spec) -> (u32, u32) {
    match s.data {
        SpecData::Resize(r) => match r.rtype {
            ResizeType::Normal => (r.width, r.height),
            ResizeType::SeamCarve => (
                if r.width < d.0 {
                    r.width
                } else {
                    d.0
                },
                if r.height < d.1 {
                    r.height
                } else {
                    d.1
                },
            ),
        },
        SpecData::Filter(_) => d,
        SpecData::Watermark(_) => d,
    }
}

/// The dimensions after a chain is applied, operation by operation.
pub open spec fn dims_after(w: u32, h: u32, ops: Seq<Spec>) -> (u32, u32)
    decreases ops.len(),
{
    if ops.len() == 0 {
        (w, h)
    } else {
        let d = dims_step((w, h), ops[0]);
        dims_after(d.0, d.1, ops.skip(1))
    }
}

/// Whether a chain applies cleanly from the given dimensions: every resize
/// meets acceptable current dimensions and carries acceptable targets. A
/// resize reached at out-of-range current dimensions — an oversized source,
/// say — is rejected rather than applied, one resolution of the open
/// question whether extreme dimensions should pass through.
pub open spec fn chain_ok(w: u32, h: u32, ops: Seq<Spec>) -> bool
    decreases ops.len(),
{
    if ops.len() == 0 {
        true
    } else {
        let d = dims_step((w, h), ops[0]);
        match ops[0].data {
            SpecData::Resize(r) => dim_ok(w) && dim_ok(h) && dim_ok(r.width) && dim_ok(r.height)
                && chain_ok(d.0, d.1, ops.skip(1)),
            _ => chain_ok(d.0, d.1, ops.skip(1)),
        }
    }
}

proof fn lemma_dims_after_snoc(w: u32, h: u32, ops: Seq<Spec>, x: Spec)
    ensures
        dims_after(w, h, ops.push(x)) == dims_step(dims_after(w, h, ops), x),
    decreases ops.len(),
{
    if ops.len() == 0 {
        assert(ops.push(x)[0] == x);
        assert(ops.push(x).skip(1) =~= Seq::<Spec>::empty());
        let d = dims_step((w, h), x);
        assert(dims_after(d.0, d.1, ops.push(x).skip(1)) == d);
        assert(dims_after(w, h, ops) == (w, h));
    } else {
        assert(ops.push(x)[0] == ops[0]);
        assert(ops.push(x).skip(1) =~= ops.skip(1).push(x));
        let d = dims_step((w, h), ops[0]);
        lemma_dims_after_snoc(d.0, d.1, ops.skip(1), x);
    }
}

/// How one operation changes the whole engine model: the pixels move through
/// the named transform results, the dimensions as `dims_step` says; an
/// unspecified stylistic filter leaves the model untouched.
pub open spec fn op_model_step(m: EngineModel, s: Spec) -> EngineModel {
    let d = dims_step((m.width, m.height), s);
    EngineModel {
        state: match s.data {
            SpecData::Resize(r) => match r.rtype {
                ResizeType::Normal => resized_of(
                    m.state,
                    m.width,
                    m.height,
                    r.width,
                    r.height,
                    effective_filter(r.filter),
                ),
                ResizeType::SeamCarve => carved_of(m.state, m.width, m.height, r.width, r.height),
            },
            SpecData::Filter(f) => if f == Filter::Unspecified {
                m.state
            } else {
                filtered_of(m.state, m.width, m.height, filter_name(f))
            },
            SpecData::Watermark(w) => watermarked_of(
                m.state,
                m.width,
                m.height,
                overlay_state(),
                16,
                16,
                w.x,
                w.y,
            ),
        },
        width: d.0,
        height: d.1,
    }
}

/// The engine model after a chain is applied, operation by operation.
pub open spec fn model_after(m: EngineModel, ops: Seq<Spec>) -> EngineModel
    decreases ops.len(),
{
    if ops.len() == 0 {
        m
    } else {
        model_after(op_model_step(m, ops[0]), ops.skip(1))
    }
}

proof fn lemma_model_after_snoc(m: EngineModel, ops: Seq<Spec>, x: Spec)
    ensures
        model_after(m, ops.push(x)) == op_model_step(model_after(m, ops), x),
    decreases ops.len(),
{
    if ops.len() == 0 {
        assert(ops.push(x)[0] == x);
        assert(ops.push(x).skip(1) =~= Seq::<Spec>::empty());
        assert(model_after(op_model_step(m, x), ops.push(x).skip(1)) == op_model_step(m, x));
        assert(model_after(m, ops) == m);
    } else {
        assert(ops.push(x)[0] == ops[0]);
        assert(ops.push(x).skip(1) =~= ops.skip(1).push(x));
        lemma_model_after_snoc(op_model_step(m, ops[0]), ops.skip(1), x);
    }
}

impl Photon {
    /// Relies on `photon_rs::native::open_image_from_bytes`: it succeeds
    /// exactly on the bytes of a supported image container, decoding them to
    /// RGBA pixel state; the result depends on the bytes alone.
    #[verifier::external_body]
    fn raw_open(bytes: &Vec<u8>) -> (r: Option<Photon>)
        ensures
            r is Some <==> opens(bytes@),
            r is Some ==> engine_state(r->0) == decoded_rgba(bytes@),
            r is Some ==> engine_width(r->0) == decoded_width(bytes@),
            r is Some ==> engine_height(r->0) == decoded_height(bytes@),
    {
        photon_rs::native::open_image_from_bytes(bytes.as_slice()).ok().map(
            |img| Photon { img },
        )
    }

    /// Relies on `photon_rs::PhotonImage::get_width`.
    #[verifier::external_body]
    pub fn width(&self) -> (r: u32)
        ensures
            r == engine_width(*self),
    {
        self.img.get_width()
    }

    /// Relies on `photon_rs::PhotonImage::get_height`.
    #[verifier::external_body]
    pub fn height(&self) -> (r: u32)
        ensures
            r == engine_height(*self),
    {
        self.img.get_height()
    }

    /// Relies on `photon_rs::transform::resize`: a sampled resize to exactly
    /// the target dimensions; the result is a pure function of the pixels,
    /// the dimensions, the targets and the filter.
    #[verifier::external_body]
    fn raw_resize_normal(&mut self, width: u32, height: u32, filter: SampleFilter)
        requires
            dim_ok(width),
            dim_ok(height),
            dim_ok(engine_width(*old(self))),
            dim_ok(engine_height(*old(self))),
            filter != SampleFilter::Undefined,
        ensures
            engine_width(*final(self)) == width,
            engine_height(*final(self)) == height,
            engine_state(*final(self)) == resized_of(
                engine_state(*old(self)),
                engine_width(*old(self)),
                engine_height(*old(self)),
                width,
                height,
                filter,
            ),
    {
        let f = match filter {
            SampleFilter::Nearest => photon_rs::transform::SamplingFilter::Nearest,
            SampleFilter::Triangle => photon_rs::transform::SamplingFilter::Triangle,
            SampleFilter::CatmullRom => photon_rs::transform::SamplingFilter::CatmullRom,
            SampleFilter::Gaussian => photon_rs::transform::SamplingFilter::Gaussian,
            SampleFilter::Lanczos3 => photon_rs::transform::SamplingFilter::Lanczos3,
            SampleFilter::Undefined => photon_rs::transform::SamplingFilter::Nearest,
        };
        self.img = photon_rs::transform::resize(&self.img, width, height, f);
    }

    /// Relies on `photon_rs::transform::seam_carve`: content-aware shrinking;
    /// each axis ends at the smaller of its current and target extent, and
    /// the result is a pure function of the pixels, the dimensions and the
    /// targets. A zero target is excluded: the carver would then be asked for
    /// a seam of an image already one pixel wide, which it refuses.
    #[verifier::external_body]
    fn raw_seam_carve(&mut self, width: u32, height: u32)
        requires
            1 <= width,
            1 <= height,
            dim_ok(engine_width(*old(self))),
            dim_ok(engine_height(*old(self))),
        ensures
            engine_width(*final(self)) == (if width < engine_width(*old(self)) {
                width
            } else {
                engine_width(*old(self))
            }),
            engine_height(*final(self)) == (if height < engine_height(*old(self)) {
                height
            } else {
                engine_height(*old(self))
            }),
            engine_state(*final(self)) == carved_of(
                engine_state(*old(self)),
                engine_width(*old(self)),
                engine_height(*old(self)),
                width,
                height,
            ),
    {
        self.img = photon_rs::transform::seam_carve(&self.img, width, height);
    }

    /// Relies on `photon_rs::filters::filter`: a pixel-colour effect chosen
    /// by name; it never changes the dimensions, and the result is a pure
    /// function of the pixels, the dimensions and the name.
    #[verifier::external_body]
    fn raw_filter(&mut self, name: &str)
        ensures
            engine_width(*final(self)) == engine_width(*old(self)),
            engine_height(*final(self)) == engine_height(*old(self)),
            engine_state(*final(self)) == filtered_of(
                engine_state(*old(self)),
                engine_width(*old(self)),
                engine_height(*old(self)),
                name@,
            ),
    {
        photon_rs::filters::filter(&mut self.img, name);
    }

    /// Relies on `photon_rs::multiple::watermark`: overlays the given image
    /// at the offset, clipping at the borders; dimensions stay, and the
    /// result is a pure function of both images, their dimensions and the
    /// offset.
    #[verifier::external_body]
    fn raw_watermark(&mut self, mark: &Photon, x: u32, y: u32)
        ensures
            engine_width(*final(self)) == engine_width(*old(self)),
            engine_height(*final(self)) == engine_height(*old(self)),
            engine_state(*final(self)) == watermarked_of(
                engine_state(*old(self)),
                engine_width(*old(self)),
                engine_height(*old(self)),
                engine_state(*mark),
                engine_width(*mark),
                engine_height(*mark),
                x,
                y,
            ),
    {
        photon_rs::multiple::watermark(&mut self.img, &mark.img, x as i64, y as i64);
    }

    /// Relies on `photon_rs::PhotonImage::new`: wraps a raw RGBA pixel
    /// buffer, four bytes a pixel, as an image of the given dimensions.
    #[verifier::external_body]
    fn from_raw_pixels(raw: Vec<u8>, width: u32, height: u32) -> (r: Photon)
        requires
            raw@.len() == 4 * (width as int) * (height as int),
        ensures
            engine_width(r) == width,
            engine_height(r) == height,
            engine_state(r) == raw@,
    {
        Photon { img: photon_rs::PhotonImage::new(raw, width, height) }
    }

    /// Relies on `photon_rs::PhotonImage::get_bytes_jpeg`: JPEG re-encoding;
    /// the encoder takes a side only up to `0xffff` pixels and clamps the
    /// quality into its meaningful range itself.
    #[verifier::external_body]
    fn raw_jpeg(self, quality: u8) -> (r: Vec<u8>)
        requires
            dim_ok(engine_width(self)),
            dim_ok(engine_height(self)),
        ensures
            r@ == jpeg_of(engine_state(self), engine_width(self), engine_height(self), quality),
    {
        self.img.get_bytes_jpeg(quality)
    }

    /// Relies on `photon_rs::PhotonImage::get_bytes`: PNG re-encoding.
    #[verifier::external_body]
    fn raw_png(self) -> (r: Vec<u8>)
        requires
            dim_ok(engine_width(self)),
            dim_ok(engine_height(self)),
        ensures
            r@ == png_of(engine_state(self), engine_width(self), engine_height(self)),
    {
        self.img.get_bytes()
    }

    /// Ingests raw image bytes. Succeeds exactly on the bytes of a supported
    /// image container, starting the engine at that container's decoded
    /// pixels and dimensions; anything else fails with
    /// `DecodeError::UnsupportedImage`.
    pub fn from_bytes(bytes: &Vec<u8>) -> (r: Result<Photon, DecodeError>)
        ensures
            r is Ok <==> opens(bytes@),
            r is Ok ==> model_of(r->Ok_0) == decoded_model(bytes@),
            r is Err ==> r->Err_0 == DecodeError::UnsupportedImage,
    {
        match Photon::raw_open(bytes) {
            Some(p) => Ok(p),
            None => Err(DecodeError::UnsupportedImage),
        }
    }

    /// The fixed overlay asset for watermarking: a small translucent white
    /// square, built pixel by pixel; its pixels are exactly `overlay_state`.
    fn overlay_asset() -> (r: Photon)
        ensures
            engine_width(r) == 16,
            engine_height(r) == 16,
            engine_state(r) == overlay_state(),
    {
        let mut raw: Vec<u8> = Vec::new();
        let mut i: usize = 0;
        while i < 256
            invariant
                i <= 256,
                raw@ == overlay_state().take(4 * i as int),
            decreases 256 - i,
        {
            raw.push(255);
            raw.push(255);
            raw.push(255);
            raw.push(128);
            i = i + 1;
            proof {
                let ii = i - 1;
                assert((4 * ii) % 4 == 0 && (4 * ii + 1) % 4 == 1 && (4 * ii + 2) % 4 == 2 && (4
                    * ii + 3) % 4 == 3) by (nonlinear_arith);
                assert(overlay_state().take(4 * i as int) =~= overlay_state().take(4 * ii as int)
                    + seq![255u8, 255u8, 255u8, 128u8]);
                assert(raw@ =~= overlay_state().take(4 * i as int));
            }
        }
        proof {
            assert(overlay_state().take(1024) =~= overlay_state());
        }
        Photon::from_raw_pixels(raw, 16, 16)
    }

    /// Applies one resize, of either kind, after checking that the current
    /// and the target dimensions are acceptable; rejected resizes leave the
    /// image untouched. An undefined sampling filter is resolved to nearest
    /// here, in the open, before the engine is asked to sample.
    pub fn checked_resize(&mut self, op: &Resize) -> (r: Result<(), TransformError>)
        ensures
            ({
                let w0 = engine_width(*old(self));
                let h0 = engine_height(*old(self));
                let ok = dim_ok(w0) && dim_ok(h0) && dim_ok(op.width) && dim_ok(op.height);
                match r {
                    Ok(_) => ok && model_of(*final(self)) == op_model_step(
                        model_of(*old(self)),
                        Spec { data: SpecData::Resize(*op) },
                    ),
                    Err(e) => !ok && e == TransformError::DimensionOutOfRange && *final(self)
                        == *old(self),
                }
            }),
    {
        let w = self.width();
        let h = self.height();
        if w < 1 || w > 0xffff || h < 1 || h > 0xffff || op.width < 1 || op.width > 0xffff
            || op.height < 1 || op.height > 0xffff {
            return Err(TransformError::DimensionOutOfRange);
        }
        match op.rtype {
            ResizeType::Normal => {
                let eff: SampleFilter = match op.filter {
                    SampleFilter::Undefined => SampleFilter::Nearest,
                    f => f,
                };
                self.raw_resize_normal(op.width, op.height, eff);
            },
            ResizeType::SeamCarve => self.raw_seam_carve(op.width, op.height),
        }
        Ok(())
    }

    /// Applies one stylistic filter; `Unspecified` is the identity — it
    /// leaves the engine exactly as it was, not an error. Dimensions never
    /// change.
    pub fn checked_filter(&mut self, op: &Filter) -> (r: Result<(), TransformError>)
        ensures
            r is Ok,
            model_of(*final(self)) == op_model_step(
                model_of(*old(self)),
                Spec { data: SpecData::Filter(*op) },
            ),
            *op == Filter::Unspecified ==> *final(self) == *old(self),
    {
        match op {
            Filter::Unspecified => Ok(()),
            Filter::Oceanic => {
                self.raw_filter("oceanic");
                Ok(())
            },
            Filter::Islands => {
                self.raw_filter("islands");
                Ok(())
            },
            Filter::Marine => {
                self.raw_filter("marine");
                Ok(())
            },
        }
    }

    /// Overlays the fixed watermark asset at the operation's offset; the
    /// overlay clips at the image borders. Dimensions never change.
    pub fn checked_watermark(&mut self, op: &Watermark) -> (r: Result<(), TransformError>)
        ensures
            r is Ok,
            model_of(*final(self)) == op_model_step(
                model_of(*old(self)),
                Spec { data: SpecData::Watermark(*op) },
            ),
    {
        let mark = Photon::overlay_asset();
        self.raw_watermark(&mark, op.x, op.y);
        Ok(())
    }

    /// Applies a whole chain, in order, left to right. Succeeds exactly when
    /// the chain applies cleanly from the current dimensions (`chain_ok`);
    /// the dimensions then evolve operation by operation to `dims_after`.
    /// The empty chain is the identity: it succeeds and changes nothing.
    pub fn apply_ops(&mut self, specs: &[Spec]) -> (r: Result<(), TransformError>)
        ensures
            r is Ok <==> chain_ok(engine_width(*old(self)), engine_height(*old(self)), specs@),
            r is Ok ==> ({
                let d = dims_after(engine_width(*old(self)), engine_height(*old(self)), specs@);
                engine_width(*final(self)) == d.0 && engine_height(*final(self)) == d.1
            }),
            r is Ok ==> model_of(*final(self)) == model_after(model_of(*old(self)), specs@),
            r is Err ==> r->Err_0 == TransformError::DimensionOutOfRange,
    {
        let ghost w0 = engine_width(*old(self));
        let ghost h0 = engine_height(*old(self));
        let ghost m0 = model_of(*old(self));
        proof {
            assert(specs@.skip(0) =~= specs@);
            assert(specs@.take(0) =~= Seq::<Spec>::empty());
        }
        let mut i: usize = 0;
        while i < specs.len()
            invariant
                i <= specs@.len(),
                w0 == engine_width(*old(self)),
                h0 == engine_height(*old(self)),
                m0 == model_of(*old(self)),
                engine_width(*self) == dims_after(w0, h0, specs@.take(i as int)).0,
                engine_height(*self) == dims_after(w0, h0, specs@.take(i as int)).1,
                model_of(*self) == model_after(m0, specs@.take(i as int)),
                chain_ok(w0, h0, specs@) <==> chain_ok(
                    engine_width(*self),
                    engine_height(*self),
                    specs@.skip(i as int),
                ),
            decreases specs@.len() - i,
        {
            let ghost rem = specs@.skip(i as int);
            let ghost wc = engine_width(*self);
            let ghost hc = engine_height(*self);
            proof {
                assert(rem[0] == specs@[i as int]);
                assert(rem.skip(1) =~= specs@.skip(i as int + 1));
                assert(specs@.take(i as int + 1) =~= specs@.take(i as int).push(
                    specs@[i as int],
                ));
                lemma_dims_after_snoc(w0, h0, specs@.take(i as int), specs@[i as int]);
                lemma_model_after_snoc(m0, specs@.take(i as int), specs@[i as int]);
            }
            let op = &specs[i];
            match &op.data {
                SpecData::Resize(rz) => {
                    proof {
                        assert(specs@[i as int] == Spec { data: SpecData::Resize(*rz) });
                    }
                    match self.checked_resize(rz) {
                        Ok(_) => {},
                        Err(e) => {
                            proof {
                                assert(!chain_ok(wc, hc, rem));
                            }
                            return Err(e);
                        },
                    }
                },
                SpecData::Filter(f) => {
                    proof {
                        assert(specs@[i as int] == Spec { data: SpecData::Filter(*f) });
                    }
                    let _ = self.checked_filter(f);
                },
                SpecData::Watermark(w) => {
                    proof {
                        assert(specs@[i as int] == Spec { data: SpecData::Watermark(*w) });
                    }
                    let _ = self.checked_watermark(w);
                },
            }
            i = i + 1;
        }
        proof {
            assert(specs@.take(specs@.len() as int) =~= specs@);
            assert(specs@.skip(specs@.len() as int) =~= Seq::<Spec>::empty());
        }
        Ok(())
    }

    /// Re-encodes the current image state, consuming the engine. Succeeds
    /// exactly when the dimensions are in the encodable range; an image a
    /// chain shrank to nothing, or grew past the container's bound, is
    /// rejected, never an encoder panic.
    pub fn render(self, format: OutputFormat) -> (r: Result<Vec<u8>, TransformError>)
        ensures
            r is Ok <==> dim_ok(engine_width(self)) && dim_ok(engine_height(self)),
            r is Ok ==> r->Ok_0@ == render_bytes(model_of(self), format),
            r is Err ==> r->Err_0 == TransformError::DimensionOutOfRange,
    {
        let w = self.width();
        let h = self.height();
        if w < 1 || w > 0xffff || h < 1 || h > 0xffff {
            return Err(TransformError::DimensionOutOfRange);
        }
        match format {
            OutputFormat::Jpeg(q) => Ok(self.raw_jpeg(q)),
            OutputFormat::Png => Ok(self.raw_png()),
        }
    }
}

/// The bytes an engine's re-encode yields for a model and a format.
pub open spec fn render_bytes(m: EngineModel, format: OutputFormat) -> Seq<u8> {
    match format {
        OutputFormat::Jpeg(q) => jpeg_of(m.state, m.width, m.height, q),
        OutputFormat::Png => png_of(m.state, m.width, m.height),
    }
}

/// Why a whole processing request failed: the source bytes are no supported
/// image, or the chain or the result fell outside the engine's range.
#[derive(Clone, Copy, Debug, PartialEq, Eq, Structural)]
pub enum ProcessError {
    Decode(DecodeError),
    Transform(TransformError),
}

/// The whole pipeline after fetch: ingest the source bytes, apply the chain
/// in order, re-encode in the requested format. Deterministic end to end: the
/// output bytes are a function of the source bytes, the chain and the format.
/// It succeeds exactly when the source is a supported image, the chain
/// applies cleanly from its dimensions, and the resulting dimensions are
/// encodable; each failure is told apart for the caller.
pub fn process_image(data: &Vec<u8>, spec: &crate::pb::ImageSpec, format: OutputFormat) -> (r:
    Result<Vec<u8>, ProcessError>)
    ensures
        ({
            let m0 = decoded_model(data@);
            let mf = model_after(m0, spec@);
            &&& (r is Ok <==> opens(data@) && chain_ok(m0.width, m0.height, spec@) && dim_ok(
                mf.width,
            ) && dim_ok(mf.height))
            &&& (r is Ok ==> r->Ok_0@ == render_bytes(mf, format))
            &&& ((r is Err && r->Err_0 == ProcessError::Decode(DecodeError::UnsupportedImage))
                <==> !opens(data@))
            &&& ((r is Err && r->Err_0 == ProcessError::Transform(
                TransformError::DimensionOutOfRange,
            )) <==> (opens(data@) && !(chain_ok(m0.width, m0.height, spec@) && dim_ok(mf.width)
                && dim_ok(mf.height))))
        }),
{
    let mut engine = match Photon::from_bytes(data) {
        Ok(e) => e,
        Err(e) => {
            return Err(ProcessError::Decode(e));
        },
    };
    match engine.apply_ops(spec.specs.as_slice()) {
        Ok(_) => {},
        Err(e) => {
            return Err(ProcessError::Transform(e));
        },
    }
    match engine.render(format) {
        Ok(bytes) => Ok(bytes),
        Err(e) => Err(ProcessError::Transform(e)),
    }
}

/// Law: the empty chain is the identity transform — it applies cleanly from
/// any dimensions and leaves them exactly as they were, so re-encoding after
/// it preserves the image's width and height.
pub proof fn lemma_empty_chain_identity(w: u32, h: u32)
    ensures
        chain_ok(w, h, Seq::<Spec>::empty()),
        dims_after(w, h, Seq::<Spec>::empty()) == (w, h),
{
}

impl Engine for Photon {
    open spec fn width_of(&self) -> u32 {
        engine_width(*self)
    }

    open spec fn height_of(&self) -> u32 {
        engine_height(*self)
    }

    fn apply(&mut self, specs: &[Spec]) -> (r: Result<(), TransformError>) {
        self.apply_ops(specs)
    }

    fn generate(self, format: OutputFormat) -> (r: Result<Vec<u8>, TransformError>) {
        self.render(format)
    }
}

impl SpecTransform<&Resize> for Photon {
    fn transform(&mut self, op: &Resize) -> Result<(), TransformError> {
        self.checked_resize(op)
    }
}

impl SpecTransform<&Filter> for Photon {
    fn transform(&mut self, op: &Filter) -> Result<(), TransformError> {
        self.checked_filter(op)
    }
}

impl SpecTransform<&Watermark> for Photon {
    fn transform(&mut self, op: &Watermark) -> Result<(), TransformError> {
        self.checked_watermark(op)
    }
}

} // verus!
