use vstd::prelude::*;

use crate::error::DecodeError;
use crate::segment::{channel_error, channel_plans, decode_channel, RawSegment, SegmentPlan};

verus! {

/// One track as the document declares it: its size and the segments of each
/// channel, each `None` where absent or of the wrong shape.
pub struct RawTrack<P> {
    pub size: Option<usize>,
    pub alt: Option<Vec<RawSegment<P>>>,
    pub lat: Option<Vec<RawSegment<P>>>,
    pub lon: Option<Vec<RawSegment<P>>>,
    pub speed: Option<Vec<RawSegment<P>>>,
    pub time: Option<Vec<RawSegment<P>>>,
}

/// A validated track: its declared size and the plans of each channel.
pub struct TrackPlan<P> {
    pub size: usize,
    pub alt: Vec<SegmentPlan<P>>,
    pub lat: Vec<SegmentPlan<P>>,
    pub lon: Vec<SegmentPlan<P>>,
    pub speed: Vec<SegmentPlan<P>>,
    pub time: Vec<SegmentPlan<P>>,
}

/// The error that decoding track `t` ends in, or `None`: first its shape, then
/// its channels in the order alt, lat, lon, speed, time.
pub open spec fn track_error<P>(t: RawTrack<P>) -> Option<DecodeError> {
    if t.size is None || t.alt is None || t.lat is None || t.lon is None || t.speed is None
        || t.time is None {
        Some(DecodeError::MalformedInput)
    } else if channel_error(t.alt.unwrap()@) is Some {
        channel_error(t.alt.unwrap()@)
    } else if channel_error(t.lat.unwrap()@) is Some {
        channel_error(t.lat.unwrap()@)
    } else if channel_error(t.lon.unwrap()@) is Some {
        channel_error(t.lon.unwrap()@)
    } else if channel_error(t.speed.unwrap()@) is Some {
        channel_error(t.speed.unwrap()@)
    } else {
        channel_error(t.time.unwrap()@)
    }
}

/// `plan` is what a track `t` that decodes without error reduces to.
pub open spec fn track_plan_of<P>(t: RawTrack<P>, plan: TrackPlan<P>) -> bool {
    &&& t.size == Some(plan.size)
    &&& channel_plans(t.alt.unwrap()@, plan.alt@)
    &&& channel_plans(t.lat.unwrap()@, plan.lat@)
    &&& channel_plans(t.lon.unwrap()@, plan.lon@)
    &&& channel_plans(t.speed.unwrap()@, plan.speed@)
    &&& channel_plans(t.time.unwrap()@, plan.time@)
}

/// The first error among the tracks of a document, in order, or `None`.
pub open spec fn document_error<P>(ts: Seq<RawTrack<P>>) -> Option<DecodeError>
    decreases ts.len(),
{
    if ts.len() == 0 {
        None
    } else if track_error(ts[0]) is Some {
        track_error(ts[0])
    } else {
        document_error(ts.drop_first())
    }
}

/// Validates one track and reduces each of its channels to segment plans.
pub fn decode_track<P>(t: RawTrack<P>) -> (r: Result<TrackPlan<P>, DecodeError>)
    ensures
        match r {
            Ok(p) => track_error(t) is None && track_plan_of(t, p),
            Err(e) => track_error(t) == Some(e),
        },
{
    let RawTrack { size, alt, lat, lon, speed, time } = t;
    let (size, alt, lat, lon, speed, time) = match (size, alt, lat, lon, speed, time) {
        (Some(s), Some(a), Some(la), Some(lo), Some(sp), Some(ti)) => (s, a, la, lo, sp, ti),
        _ => {
            return Err(DecodeError::MalformedInput);
        },
    };
    let alt = match decode_channel(alt) {
        Ok(p) => p,
        Err(e) => {
            return Err(e);
        },
    };
    let lat = match decode_channel(lat) {
        Ok(p) => p,
        Err(e) => {
            return Err(e);
        },
    };
    let lon = match decode_channel(lon) {
        Ok(p) => p,
        Err(e) => {
            return Err(e);
        },
    };
    let speed = match decode_channel(speed) {
        Ok(p) => p,
        Err(e) => {
            return Err(e);
        },
    };
    let time = match decode_channel(time) {
        Ok(p) => p,
        Err(e) => {
            return Err(e);
        },
    };
    Ok(TrackPlan { size, alt, lat, lon, speed, time })
}

/// Validates every track of a document. Any error fails the whole document.
pub fn decode_document<P>(tracks: Vec<RawTrack<P>>) -> (r: Result<Vec<TrackPlan<P>>, DecodeError>)
    ensures
        match r {
            Ok(plans) => {
                &&& document_error(tracks@) is None
                &&& plans@.len() == tracks@.len()
                &&& forall|i: int| 0 <= i < plans@.len() ==> track_plan_of(tracks@[i], #[trigger] plans@[i])
            },
            Err(e) => document_error(tracks@) == Some(e),
        },
{
    let ghost all = tracks@;
    let mut rest = tracks;
    let mut plans: Vec<TrackPlan<P>> = Vec::new();
    while rest.len() > 0
        invariant
            all == tracks@,
            plans@.len() + rest@.len() == all.len(),
            rest@ == all.subrange(plans@.len() as int, all.len() as int),
            document_error(all) == document_error(rest@),
            forall|i: int| 0 <= i < plans@.len() ==> track_plan_of(all[i], #[trigger] plans@[i]),
        decreases rest@.len(),
    {
        let ghost before = rest@;
        let t = rest.remove(0);
        assert(rest@ =~= before.drop_first());
        assert(rest@ =~= all.subrange(plans@.len() + 1int, all.len() as int));
        assert(before[0] == t);
        match decode_track(t) {
            Ok(p) => {
                assert(document_error(before) == document_error(rest@));
                plans.push(p);
            },
            Err(e) => {
                assert(document_error(before) == Some(e));
                return Err(e);
            },
        }
    }
    assert(rest@ =~= Seq::<RawTrack<P>>::empty());
    Ok(plans)
}

/// A document fails as soon as any one of its tracks fails: no partial set of
/// tracks is decoded.
pub proof fn lemma_document_fails_on_any_track<P>(ts: Seq<RawTrack<P>>, i: int)
    requires
        0 <= i < ts.len(),
        track_error(ts[i]) is Some,
    ensures
        document_error(ts) is Some,
    decreases i,
{
    if i > 0 && track_error(ts[0]) is None {
        lemma_document_fails_on_any_track(ts.drop_first(), i - 1);
    }
}

/// A track fails as soon as any one of its channels fails.
pub proof fn lemma_track_fails_on_any_channel<P>(t: RawTrack<P>)
    requires
        channel_error(t.alt.unwrap()@) is Some || channel_error(t.lat.unwrap()@) is Some
            || channel_error(t.lon.unwrap()@) is Some || channel_error(t.speed.unwrap()@) is Some
            || channel_error(t.time.unwrap()@) is Some,
    ensures
        track_error(t) is Some,
{
}

} // verus!
