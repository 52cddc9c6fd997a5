use vstd::prelude::*;

use crate::error::{DecodeError, Param};
use crate::unpack::{sign_extend, signed, unpack, unpacked};

verus! {

broadcast use vstd::string::to_string_from_display_ensures_for_str;

/// The bytes that the base64 text `s` encodes, or `None` where it is not valid base64.
pub uninterp spec fn base64_decoded(s: Seq<char>) -> Option<Seq<u8>>;

/// Relies on `base64::decode` (standard alphabet, padded): the bytes that `text`
/// encodes, or an error where it is not valid base64.
#[verifier::external_body]
fn decode_base64(text: &String) -> (r: Option<Vec<u8>>)
    ensures
        match r {
            Some(b) => base64_decoded(text@) == Some(b@),
            None => base64_decoded(text@) is None,
        },
{
    base64::decode(text.as_str()).ok()
}

/// One segment of a channel as the document declares it. Each parameter is
/// `None` where it is absent or of the wrong type. `P` is the type of the
/// real-valued parameters (`base`, `step`, `factor`).
pub struct RawSegment<P> {
    pub value_type: Option<String>,
    pub encoding: Option<String>,
    pub base: Option<P>,
    pub size: Option<i64>,
    pub step: Option<P>,
    pub bitwidth: Option<i64>,
    pub factor: Option<P>,
    pub data: Option<String>,
}

/// A validated segment, reduced to what its samples are computed from.
pub enum SegmentPlan<P> {
    /// `count` samples: `base`, `base + step`, `base + 2 * step`, ...
    Freq { base: P, step: P, count: u64 },
    /// `base`, then for each delta the previous sample plus `delta * factor`.
    Diff { base: P, factor: P, deltas: Vec<i32> },
}

impl<P> SegmentPlan<P> {
    /// How many samples the segment yields.
    pub open spec fn spec_len(&self) -> nat {
        match self {
            SegmentPlan::Freq { count, .. } => *count as nat,
            SegmentPlan::Diff { deltas, .. } => deltas@.len() + 1,
        }
    }
}

/// The signed increments packed into `b` at width `w`.
pub open spec fn diff_values(b: Seq<u8>, w: i64) -> Seq<int> {
    unpacked(b, w).map_values(|v: u16| signed(v as int, w as int))
}

/// The number of samples of a `freq` segment of declared size `size`.
pub open spec fn freq_count(size: i64) -> u64 {
    if size < 0 { 0 } else { size as u64 }
}

/// The error that decoding `seg` ends in, checked in this order, or `None`.
pub open spec fn segment_error<P>(seg: RawSegment<P>) -> Option<DecodeError> {
    if seg.value_type is None {
        Some(DecodeError::MissingField(Param::Type))
    } else if seg.value_type.unwrap()@ != "double"@ {
        Some(DecodeError::UnsupportedEncoding(seg.value_type.unwrap()))
    } else if seg.encoding is None {
        Some(DecodeError::MissingField(Param::Encoding))
    } else if seg.encoding.unwrap()@ != "freq"@ && seg.encoding.unwrap()@ != "base64/diff"@ {
        Some(DecodeError::UnsupportedEncoding(seg.encoding.unwrap()))
    } else if seg.base is None {
        Some(DecodeError::MissingField(Param::Base))
    } else if seg.size is None {
        Some(DecodeError::MissingField(Param::Size))
    } else if seg.encoding.unwrap()@ == "freq"@ {
        if seg.step is None {
            Some(DecodeError::MissingField(Param::Step))
        } else {
            None
        }
    } else if seg.bitwidth is None {
        Some(DecodeError::MissingField(Param::Bitwidth))
    } else if seg.factor is None {
        Some(DecodeError::MissingField(Param::Factor))
    } else if seg.data is None {
        Some(DecodeError::MissingField(Param::Data))
    } else if base64_decoded(seg.data.unwrap()@) is None {
        Some(DecodeError::BadTransport)
    } else if seg.bitwidth.unwrap() != 8 && seg.bitwidth.unwrap() != 12 {
        Some(DecodeError::UnsupportedBitwidth(seg.bitwidth.unwrap()))
    } else {
        None
    }
}

/// `plan` is what a segment `seg` that decodes without error reduces to.
pub open spec fn plan_of<P>(seg: RawSegment<P>, plan: SegmentPlan<P>) -> bool {
    match plan {
        SegmentPlan::Freq { base, step, count } => {
            &&& seg.encoding.unwrap()@ == "freq"@
            &&& base == seg.base.unwrap()
            &&& step == seg.step.unwrap()
            &&& count == freq_count(seg.size.unwrap())
        },
        SegmentPlan::Diff { base, factor, deltas } => {
            &&& seg.encoding.unwrap()@ == "base64/diff"@
            &&& base == seg.base.unwrap()
            &&& factor == seg.factor.unwrap()
            &&& deltas@.map_values(|d: i32| d as int) == diff_values(
                base64_decoded(seg.data.unwrap()@).unwrap(),
                seg.bitwidth.unwrap(),
            )
        },
    }
}

fn is_word(s: &String, w: &str) -> (r: bool)
    ensures
        r == (s@ == w@),
{
    let t = w.to_string();
    *s == t
}

/// The signed increments packed into `bytes` at width `bitwidth`.
pub fn diff_deltas(bytes: Vec<u8>, bitwidth: i64) -> (r: Result<Vec<i32>, DecodeError>)
    ensures
        bitwidth == 8 || bitwidth == 12 ==> (r matches Ok(d) && d@.map_values(|x: i32| x as int)
            == diff_values(bytes@, bitwidth)),
        !(bitwidth == 8 || bitwidth == 12) ==> r == Err::<Vec<i32>, DecodeError>(
            DecodeError::UnsupportedBitwidth(bitwidth),
        ),
{
    let ghost src = bytes@;
    let values = match unpack(bytes, bitwidth) {
        Ok(v) => v,
        Err(e) => {
            return Err(e);
        },
    };
    proof {
        if bitwidth == 12 {
            crate::unpack::lemma_twelve_values_bounded(src);
        }
    }
    let mut out: Vec<i32> = Vec::new();
    let mut i: usize = 0;
    while i < values.len()
        invariant
            i <= values@.len(),
            values@ == unpacked(src, bitwidth),
            bitwidth == 8 || bitwidth == 12,
            bitwidth == 12 ==> forall|j: int| 0 <= j < values@.len() ==> values@[j] < 4096,
            out@.len() == i,
            forall|j: int| 0 <= j < i ==> out@[j] as int == diff_values(src, bitwidth)[j],
        decreases values@.len() - i,
    {
        let v = values[i];
        let d = sign_extend(v, bitwidth);
        assert(diff_values(src, bitwidth)[i as int] == d as int);
        out.push(d);
        i = i + 1;
    }
    assert(out@.map_values(|x: i32| x as int) =~= diff_values(src, bitwidth));
    Ok(out)
}

/// Validates one segment and reduces it to the plan of its samples.
pub fn decode_segment<P>(seg: RawSegment<P>) -> (r: Result<SegmentPlan<P>, DecodeError>)
    ensures
        match r {
            Ok(p) => segment_error(seg) is None && plan_of(seg, p),
            Err(e) => segment_error(seg) == Some(e),
        },
{
    let RawSegment { value_type, encoding, base, size, step, bitwidth, factor, data } = seg;
    let value_type = match value_type {
        Some(t) => t,
        None => {
            return Err(DecodeError::MissingField(Param::Type));
        },
    };
    if !is_word(&value_type, "double") {
        return Err(DecodeError::UnsupportedEncoding(value_type));
    }
    let encoding = match encoding {
        Some(e) => e,
        None => {
            return Err(DecodeError::MissingField(Param::Encoding));
        },
    };
    let is_freq = is_word(&encoding, "freq");
    if !is_freq && !is_word(&encoding, "base64/diff") {
        return Err(DecodeError::UnsupportedEncoding(encoding));
    }
    let base = match base {
        Some(b) => b,
        None => {
            return Err(DecodeError::MissingField(Param::Base));
        },
    };
    let size = match size {
        Some(s) => s,
        None => {
            return Err(DecodeError::MissingField(Param::Size));
        },
    };
    if is_freq {
        let step = match step {
            Some(s) => s,
            None => {
                return Err(DecodeError::MissingField(Param::Step));
            },
        };
        let count: u64 = if size < 0 { 0 } else { size as u64 };
        Ok(SegmentPlan::Freq { base, step, count })
    } else {
        let bitwidth = match bitwidth {
            Some(w) => w,
            None => {
                return Err(DecodeError::MissingField(Param::Bitwidth));
            },
        };
        let factor = match factor {
            Some(f) => f,
            None => {
                return Err(DecodeError::MissingField(Param::Factor));
            },
        };
        let data = match data {
            Some(d) => d,
            None => {
                return Err(DecodeError::MissingField(Param::Data));
            },
        };
        let bytes = match decode_base64(&data) {
            Some(b) => b,
            None => {
                return Err(DecodeError::BadTransport);
            },
        };
        match diff_deltas(bytes, bitwidth) {
            Ok(deltas) => Ok(SegmentPlan::Diff { base, factor, deltas }),
            Err(e) => Err(e),
        }
    }
}

/// `plans` are the plans of the segments `segs`, one for one.
pub open spec fn channel_plans<P>(segs: Seq<RawSegment<P>>, plans: Seq<SegmentPlan<P>>) -> bool {
    &&& plans.len() == segs.len()
    &&& forall|i: int| 0 <= i < plans.len() ==> plan_of(segs[i], #[trigger] plans[i])
}

/// The first error among the segments of a channel, in document order, or `None`.
pub open spec fn channel_error<P>(segs: Seq<RawSegment<P>>) -> Option<DecodeError>
    decreases segs.len(),
{
    if segs.len() == 0 {
        None
    } else if segment_error(segs[0]) is Some {
        segment_error(segs[0])
    } else {
        channel_error(segs.drop_first())
    }
}

/// Validates the segments of one channel in order. The first segment that
/// fails fails the whole channel; otherwise each segment gets its plan.
pub fn decode_channel<P>(segments: Vec<RawSegment<P>>) -> (r: Result<Vec<SegmentPlan<P>>, DecodeError>)
    ensures
        match r {
            Ok(plans) => channel_error(segments@) is None && channel_plans(segments@, plans@),
            Err(e) => channel_error(segments@) == Some(e),
        },
{
    let ghost all = segments@;
    let mut rest = segments;
    let mut plans: Vec<SegmentPlan<P>> = Vec::new();
    while rest.len() > 0
        invariant
            all == segments@,
            plans@.len() + rest@.len() == all.len(),
            rest@ == all.subrange(plans@.len() as int, all.len() as int),
            channel_error(all) == channel_error(rest@),
            forall|i: int| 0 <= i < plans@.len() ==> plan_of(all[i], #[trigger] plans@[i]),
        decreases rest@.len(),
    {
        let ghost before = rest@;
        let seg = rest.remove(0);
        assert(rest@ =~= before.drop_first());
        assert(rest@ =~= all.subrange(plans@.len() + 1int, all.len() as int));
        assert(before[0] == seg);
        match decode_segment(seg) {
            Ok(p) => {
                assert(channel_error(before) == channel_error(rest@));
                plans.push(p);
            },
            Err(e) => {
                assert(channel_error(before) == Some(e));
                return Err(e);
            },
        }
    }
    assert(rest@ =~= Seq::<RawSegment<P>>::empty());
    Ok(plans)
}

/// Two plans describe the same samples.
pub open spec fn same_plan<P>(a: SegmentPlan<P>, b: SegmentPlan<P>) -> bool {
    match (a, b) {
        (
            SegmentPlan::Freq { base: b1, step: s1, count: c1 },
            SegmentPlan::Freq { base: b2, step: s2, count: c2 },
        ) => b1 == b2 && s1 == s2 && c1 == c2,
        (
            SegmentPlan::Diff { base: b1, factor: f1, deltas: d1 },
            SegmentPlan::Diff { base: b2, factor: f2, deltas: d2 },
        ) => b1 == b2 && f1 == f2 && d1@ == d2@,
        _ => false,
    }
}

/// Decoding a segment is a function of the segment alone: any two plans of
/// one segment describe the same samples.
pub proof fn lemma_plan_determined<P>(seg: RawSegment<P>, a: SegmentPlan<P>, b: SegmentPlan<P>)
    requires
        plan_of(seg, a),
        plan_of(seg, b),
    ensures
        same_plan(a, b),
{
    reveal_strlit("freq");
    reveal_strlit("base64/diff");
    assert("freq"@.len() != "base64/diff"@.len());
    if let (SegmentPlan::Diff { deltas: d1, .. }, SegmentPlan::Diff { deltas: d2, .. }) = (a, b) {
        let m1 = d1@.map_values(|x: i32| x as int);
        let m2 = d2@.map_values(|x: i32| x as int);
        assert(m1 == m2);
        assert forall|i: int| 0 <= i < d1@.len() implies d1@[i] == d2@[i] by {
            assert(m1[i] == m2[i]);
        }
        assert(d1@ =~= d2@);
    }
}

/// Decoding a segment list twice gives the same plans, segment by segment.
pub proof fn lemma_channel_determined<P>(
    segs: Seq<RawSegment<P>>,
    a: Seq<SegmentPlan<P>>,
    b: Seq<SegmentPlan<P>>,
)
    requires
        channel_plans(segs, a),
        channel_plans(segs, b),
    ensures
        a.len() == b.len(),
        forall|i: int| 0 <= i < a.len() ==> #[trigger] same_plan(a[i], b[i]),
{
    assert forall|i: int| 0 <= i < a.len() implies #[trigger] same_plan(a[i], b[i]) by {
        lemma_plan_determined(segs[i], a[i], b[i]);
    }
}

/// A channel fails as soon as any one of its segments fails: no segment is skipped.
pub proof fn lemma_channel_fails_on_any_segment<P>(segs: Seq<RawSegment<P>>, i: int)
    requires
        0 <= i < segs.len(),
        segment_error(segs[i]) is Some,
    ensures
        channel_error(segs) is Some,
    decreases i,
{
    if i > 0 && segment_error(segs[0]) is None {
        lemma_channel_fails_on_any_segment(segs.drop_first(), i - 1);
    }
}

} // verus!
