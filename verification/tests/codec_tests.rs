use thumbor::codec::DecodeError;
use thumbor::pb::{Filter, ImageSpec, ResizeType, SampleFilter, Spec, SpecData};

#[test]
fn encoded_spec_could_be_decoded() {
    let spec1 = Spec::new_resize(600, 600, SampleFilter::CatmullRom);
    let spec2 = Spec::new_filter(Filter::Marine);
    let image_spec = ImageSpec::new(vec![spec1, spec2]);
    let s: String = image_spec.encode();
    assert_eq!(image_spec, ImageSpec::decode(s.as_str()).unwrap());
}

#[test]
fn token_reproduces_three_operations_in_order() {
    let chain = ImageSpec::new(vec![
        Spec::new_resize(500, 800, SampleFilter::CatmullRom),
        Spec::new_watermark(20, 20),
        Spec::new_filter(Filter::Marine),
    ]);
    let token = chain.encode();
    let decoded = ImageSpec::decode(token.as_str()).unwrap();
    assert_eq!(decoded.specs.len(), 3);
    match &decoded.specs[0].data {
        SpecData::Resize(r) => {
            assert_eq!(r.width, 500);
            assert_eq!(r.height, 800);
            assert_eq!(r.rtype, ResizeType::Normal);
            assert_eq!(r.filter, SampleFilter::CatmullRom);
        }
        _ => panic!("first operation should be the resize"),
    }
    match &decoded.specs[1].data {
        SpecData::Watermark(w) => {
            assert_eq!(w.x, 20);
            assert_eq!(w.y, 20);
        }
        _ => panic!("second operation should be the watermark"),
    }
    match &decoded.specs[2].data {
        SpecData::Filter(f) => assert_eq!(*f, Filter::Marine),
        _ => panic!("third operation should be the filter"),
    }
}

#[test]
fn empty_chain_round_trips() {
    let chain = ImageSpec::new(vec![]);
    let token = chain.encode();
    assert_eq!(token, "");
    let decoded = ImageSpec::decode(token.as_str()).unwrap();
    assert_eq!(decoded.specs.len(), 0);
    let from_empty_text = ImageSpec::decode("").unwrap();
    assert_eq!(from_empty_text.specs.len(), 0);
}

#[test]
fn every_variant_round_trips() {
    let filters = [
        SampleFilter::Undefined,
        SampleFilter::Nearest,
        SampleFilter::Triangle,
        SampleFilter::CatmullRom,
        SampleFilter::Gaussian,
        SampleFilter::Lanczos3,
    ];
    let mut specs = Vec::new();
    for f in filters {
        specs.push(Spec::new_resize(1, u32::MAX, f));
    }
    for f in [
        Filter::Unspecified,
        Filter::Oceanic,
        Filter::Islands,
        Filter::Marine,
    ] {
        specs.push(Spec::new_filter(f));
    }
    specs.push(Spec::new_resize_seam_carve(123456789, 0));
    specs.push(Spec::new_watermark(u32::MAX, 0));
    let chain = ImageSpec::new(specs);
    let decoded = ImageSpec::decode(chain.encode().as_str()).unwrap();
    assert_eq!(chain, decoded);
}

#[test]
fn known_chain_has_exact_token() {
    // A lone marine filter serializes to the bytes [2, 3]: the filter tag,
    // then the filter's enumeration value; "AgM" is their base64 text.
    let chain = ImageSpec::new(vec![Spec::new_filter(Filter::Marine)]);
    assert_eq!(chain.encode(), "AgM");
    // A lone watermark at (1, 2): the tag 3, then two little-endian words.
    let chain = ImageSpec::new(vec![Spec::new_watermark(1, 2)]);
    assert_eq!(chain.encode(), "AwEAAAACAAAA");
}

#[test]
fn encoding_is_deterministic() {
    let make = || {
        ImageSpec::new(vec![
            Spec::new_resize(500, 800, SampleFilter::CatmullRom),
            Spec::new_filter(Filter::Oceanic),
        ])
    };
    assert_eq!(make().encode(), make().encode());
}

#[test]
fn token_is_url_safe() {
    let chain = ImageSpec::new(vec![
        Spec::new_resize(500, 800, SampleFilter::CatmullRom),
        Spec::new_watermark(20, 20),
        Spec::new_filter(Filter::Marine),
    ]);
    let token = chain.encode();
    assert!(!token.is_empty());
    for c in token.chars() {
        assert!(c.is_ascii_alphanumeric() || c == '-' || c == '_');
    }
}

#[test]
fn truncated_tokens_rejected() {
    let token = ImageSpec::new(vec![Spec::new_resize(500, 800, SampleFilter::CatmullRom)])
        .encode();
    for cut in 1..token.len() {
        let prefix = &token[..cut];
        assert!(
            ImageSpec::decode(prefix).is_err(),
            "prefix of length {} was accepted",
            cut
        );
    }
}

#[test]
fn non_base64_text_rejected() {
    for bad in ["!!!", "a b", "abc/", "abc+", "ab=", "%41"] {
        assert!(matches!(
            ImageSpec::decode(bad),
            Err(DecodeError::InvalidText)
        ));
    }
}

#[test]
fn corrupted_payload_rejected() {
    // "CQ" is the base64 text of the single byte 9: an unknown variant tag.
    assert!(matches!(
        ImageSpec::decode("CQ"),
        Err(DecodeError::MalformedPayload)
    ));
    // "Agc" is the base64 text of the bytes [2, 7]: a filter operation whose
    // filter byte is outside the enumeration's domain.
    assert!(matches!(
        ImageSpec::decode("Agc"),
        Err(DecodeError::MalformedPayload)
    ));
    // "AQ" is the base64 text of the lone byte 1: a resize tag with its
    // payload missing entirely.
    assert!(matches!(
        ImageSpec::decode("AQ"),
        Err(DecodeError::MalformedPayload)
    ));
}

#[test]
fn filter_names() {
    assert_eq!(Filter::Unspecified.to_str(), None);
    assert_eq!(Filter::Oceanic.to_str(), Some("oceanic"));
    assert_eq!(Filter::Islands.to_str(), Some("islands"));
    assert_eq!(Filter::Marine.to_str(), Some("marine"));
}

#[test]
fn sample_filter_to_filter_mapping() {
    assert_eq!(Filter::from(SampleFilter::Undefined), Filter::Unspecified);
    assert_eq!(Filter::from(SampleFilter::Nearest), Filter::Oceanic);
    assert_eq!(Filter::from(SampleFilter::Triangle), Filter::Islands);
    assert_eq!(Filter::from(SampleFilter::CatmullRom), Filter::Marine);
    assert_eq!(Filter::from(SampleFilter::Gaussian), Filter::Unspecified);
    assert_eq!(Filter::from(SampleFilter::Lanczos3), Filter::Unspecified);
}

#[test]
fn constructors_fill_fields() {
    let s = Spec::new_resize_seam_carve(10, 20);
    match s.data {
        SpecData::Resize(r) => {
            assert_eq!(r.width, 10);
            assert_eq!(r.height, 20);
            assert_eq!(r.rtype, ResizeType::SeamCarve);
            assert_eq!(r.filter, SampleFilter::Undefined);
        }
        _ => panic!("seam carve should be a resize"),
    }
    let w = Spec::new_watermark(3, 4);
    match w.data {
        SpecData::Watermark(m) => {
            assert_eq!(m.x, 3);
            assert_eq!(m.y, 4);
        }
        _ => panic!("watermark expected"),
    }
}
