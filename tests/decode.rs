use alpinereplay::{
    assemble, decode_channel, decode_document, decode_segment, diff_deltas, sign_extend,
    track_order, unpack, Channels, DecodeError, Field, LengthMismatch, Param, RawSegment,
    RawTrack, SegmentPlan, TwelveBits,
};

fn segment(encoding: &str) -> RawSegment<f64> {
    RawSegment {
        value_type: Some("double".to_string()),
        encoding: Some(encoding.to_string()),
        base: None,
        size: None,
        step: None,
        bitwidth: None,
        factor: None,
        data: None,
    }
}

fn freq(base: f64, step: f64, size: i64) -> RawSegment<f64> {
    let mut s = segment("freq");
    s.base = Some(base);
    s.step = Some(step);
    s.size = Some(size);
    s
}

fn diff(base: f64, factor: f64, bitwidth: i64, data: &str) -> RawSegment<f64> {
    let mut s = segment("base64/diff");
    s.base = Some(base);
    s.size = Some(0);
    s.factor = Some(factor);
    s.bitwidth = Some(bitwidth);
    s.data = Some(data.to_string());
    s
}

fn samples(plan: &SegmentPlan<f64>) -> Vec<f64> {
    let mut out = Vec::new();
    match plan {
        SegmentPlan::Freq { base, step, count } => {
            let mut v = *base;
            for _ in 0..*count {
                out.push(v);
                v += *step;
            }
        }
        SegmentPlan::Diff { base, factor, deltas } => {
            let mut last = *base;
            out.push(last);
            for d in deltas {
                last = f64::from(*d) * *factor + last;
                out.push(last);
            }
        }
    }
    out
}

fn track(size: usize, time: Vec<RawSegment<f64>>) -> RawTrack<f64> {
    RawTrack {
        size: Some(size),
        alt: Some(vec![freq(0.0, 0.0, size as i64)]),
        lat: Some(vec![freq(0.0, 0.0, size as i64)]),
        lon: Some(vec![freq(0.0, 0.0, size as i64)]),
        speed: Some(vec![freq(0.0, 0.0, size as i64)]),
        time: Some(time),
    }
}

#[test]
fn test() {
    let bytes = vec![0x11, 0x12, 0x22, 0x33, 0x34];
    let mut it = TwelveBits::new(bytes);
    let mut res = Vec::new();
    while let Some(v) = it.next() {
        res.push(v);
    }
    assert_eq!(&res, &[0x111, 0x222, 0x333]);
}

#[test]
fn twelve_bits_stays_exhausted() {
    let mut it = TwelveBits::new(vec![0xAB, 0xCD]);
    assert_eq!(it.next(), Some(0xABC));
    assert_eq!(it.next(), None);
    assert_eq!(it.next(), None);
}

#[test]
fn unpack_width_8_keeps_each_byte() {
    let bytes = vec![0u8, 1, 127, 128, 255];
    assert_eq!(unpack(bytes, 8).unwrap(), vec![0u16, 1, 127, 128, 255]);
    assert_eq!(unpack(vec![], 8).unwrap(), Vec::<u16>::new());
}

#[test]
fn unpack_width_12_example() {
    let r = unpack(vec![0x11, 0x12, 0x22, 0x33, 0x34], 12).unwrap();
    assert_eq!(r, vec![0x111, 0x222, 0x333]);
}

#[test]
fn unpack_width_12_counts_and_bounds() {
    for n in 0..10usize {
        let bytes: Vec<u8> = (0..n).map(|i| (i * 37 + 200) as u8).collect();
        let r = unpack(bytes, 12).unwrap();
        assert_eq!(r.len(), 8 * n / 12);
        assert!(r.iter().all(|v| *v < 4096));
    }
    assert_eq!(unpack(vec![0xFF, 0xFF, 0xFF], 12).unwrap(), vec![0xFFF, 0xFFF]);
}

#[test]
fn unpack_rejects_other_widths() {
    assert_eq!(unpack(vec![1, 2, 3], 16), Err(DecodeError::UnsupportedBitwidth(16)));
    assert_eq!(unpack(vec![], 0), Err(DecodeError::UnsupportedBitwidth(0)));
}

#[test]
fn sign_extend_both_widths() {
    assert_eq!(sign_extend(127, 8), 127);
    assert_eq!(sign_extend(128, 8), -128);
    assert_eq!(sign_extend(255, 8), -1);
    assert_eq!(sign_extend(2047, 12), 2047);
    assert_eq!(sign_extend(2048, 12), -2048);
    assert_eq!(sign_extend(4095, 12), -1);
}

#[test]
fn freq_decode_is_repeatable() {
    let a = decode_channel(vec![freq(1.5, 0.25, 4), freq(3.0, 1.0, 2)]).unwrap();
    let b = decode_channel(vec![freq(1.5, 0.25, 4), freq(3.0, 1.0, 2)]).unwrap();
    let sa: Vec<Vec<f64>> = a.iter().map(samples).collect();
    let sb: Vec<Vec<f64>> = b.iter().map(samples).collect();
    assert_eq!(sa, sb);
    assert_eq!(sa, vec![vec![1.5, 1.75, 2.0, 2.25], vec![3.0, 4.0]]);
}

#[test]
fn freq_zero_to_four() {
    let plan = decode_segment(freq(0.0, 1.0, 5)).unwrap();
    assert!(matches!(plan, SegmentPlan::Freq { count: 5, .. }));
    assert_eq!(samples(&plan), vec![0.0, 1.0, 2.0, 3.0, 4.0]);
}

#[test]
fn freq_empty_and_negative_size() {
    let plan = decode_segment(freq(7.0, 1.0, 0)).unwrap();
    assert_eq!(samples(&plan), Vec::<f64>::new());
    let plan = decode_segment(freq(7.0, 1.0, -3)).unwrap();
    assert!(matches!(plan, SegmentPlan::Freq { count: 0, .. }));
}

#[test]
fn diff_width_8_example() {
    // bytes [1, 255]
    let plan = decode_segment(diff(10.0, 2.0, 8, "Af8=")).unwrap();
    match &plan {
        SegmentPlan::Diff { deltas, .. } => assert_eq!(deltas, &vec![1, -1]),
        _ => panic!("expected a diff plan"),
    }
    assert_eq!(samples(&plan), vec![10.0, 12.0, 10.0]);
}

#[test]
fn diff_width_12_sign_extends() {
    // bytes [0x80, 0x0F, 0xFF]: 12-bit values 0x800 and 0xFFF
    let plan = decode_segment(diff(0.0, 1.0, 12, "gA//")).unwrap();
    match &plan {
        SegmentPlan::Diff { deltas, .. } => assert_eq!(deltas, &vec![-2048, -1]),
        _ => panic!("expected a diff plan"),
    }
    assert_eq!(samples(&plan), vec![0.0, -2048.0, -2049.0]);
    assert_eq!(diff_deltas(vec![0x7F, 0xF8, 0x00], 12).unwrap(), vec![2047, -2048]);
}

#[test]
fn diff_rejects_bad_base64() {
    let r = decode_segment(diff(0.0, 1.0, 8, "!!not base64!!"));
    assert!(matches!(r, Err(DecodeError::BadTransport)));
}

#[test]
fn diff_rejects_other_widths() {
    let r = decode_segment(diff(0.0, 1.0, 16, "Af8="));
    assert!(matches!(r, Err(DecodeError::UnsupportedBitwidth(16))));
}

#[test]
fn missing_parameters_are_reported() {
    let mut s = freq(0.0, 1.0, 3);
    s.step = None;
    assert!(matches!(decode_segment(s), Err(DecodeError::MissingField(Param::Step))));
    let mut s = freq(0.0, 1.0, 3);
    s.base = None;
    assert!(matches!(decode_segment(s), Err(DecodeError::MissingField(Param::Base))));
    let mut s = diff(0.0, 1.0, 8, "AQ==");
    s.factor = None;
    assert!(matches!(decode_segment(s), Err(DecodeError::MissingField(Param::Factor))));
    let mut s = diff(0.0, 1.0, 8, "AQ==");
    s.data = None;
    assert!(matches!(decode_segment(s), Err(DecodeError::MissingField(Param::Data))));
}

#[test]
fn value_type_must_be_double() {
    let mut s = freq(0.0, 1.0, 3);
    s.value_type = Some("int".to_string());
    match decode_segment(s) {
        Err(DecodeError::UnsupportedEncoding(name)) => assert_eq!(name, "int"),
        _ => panic!("expected UnsupportedEncoding"),
    }
}

#[test]
fn unsupported_encoding_fails_document() {
    let good = track(2, vec![freq(100.0, 1.0, 2)]);
    let bad = track(2, vec![freq(0.0, 1.0, 1), segment("xor")]);
    match decode_document(vec![good, bad]) {
        Err(DecodeError::UnsupportedEncoding(name)) => assert_eq!(name, "xor"),
        _ => panic!("expected UnsupportedEncoding"),
    }
}

#[test]
fn missing_track_size_is_malformed() {
    let mut t = track(2, vec![freq(100.0, 1.0, 2)]);
    t.size = None;
    assert!(matches!(decode_document(vec![t]), Err(DecodeError::MalformedInput)));
    let mut t = track(2, vec![freq(100.0, 1.0, 2)]);
    t.lat = None;
    assert!(matches!(decode_document(vec![t]), Err(DecodeError::MalformedInput)));
}

#[test]
fn document_decodes_every_track() {
    let plans = decode_document(vec![track(2, vec![freq(100.0, 1.0, 2)])]).unwrap();
    assert_eq!(plans.len(), 1);
    assert_eq!(plans[0].size, 2);
    assert_eq!(samples(&plans[0].time[0]), vec![100.0, 101.0]);
}

#[test]
fn short_channel_keeps_default() {
    let channels = Channels {
        alt: vec![1.0, 2.0, 3.0],
        lat: vec![4.0, 5.0],
        lon: vec![6.0, 7.0, 8.0],
        speed: vec![0.5, 0.5, 0.5],
        time: vec![10.0, 11.0, 12.0],
    };
    let (points, report) = assemble(&channels, 3, 0.0);
    assert_eq!(points.len(), 3);
    assert_eq!(points[2].lat, 0.0);
    assert_eq!(points[1].lat, 5.0);
    assert_eq!(points[2].alt, 3.0);
    assert_eq!(points[2].time, 12.0);
    assert_eq!(
        report,
        vec![LengthMismatch { field: Field::Lat, actual: 2, expected: 3 }]
    );
}

#[test]
fn long_channel_is_truncated_and_reported() {
    let channels = Channels {
        alt: vec![1.0, 2.0],
        lat: vec![1.0],
        lon: vec![1.0],
        speed: vec![1.0],
        time: vec![],
    };
    let (points, report) = assemble(&channels, 1, 0.0);
    assert_eq!(points.len(), 1);
    assert_eq!(points[0].alt, 1.0);
    assert_eq!(
        report,
        vec![
            LengthMismatch { field: Field::Alt, actual: 2, expected: 1 },
            LengthMismatch { field: Field::Time, actual: 0, expected: 1 },
        ]
    );
}

#[test]
fn tracks_ordered_by_first_time() {
    let firsts = [100.5f64, 50.2f64];
    let keys: Vec<Option<i64>> = firsts.iter().map(|t| Some(t.floor() as i64)).collect();
    assert_eq!(track_order(&keys), vec![1, 0]);
}

#[test]
fn empty_tracks_left_out_and_ties_stable() {
    let keys = vec![Some(5), None, Some(3), Some(5), Some(-1)];
    assert_eq!(track_order(&keys), vec![4, 2, 0, 3]);
    assert_eq!(track_order(&vec![]), Vec::<usize>::new());
}
