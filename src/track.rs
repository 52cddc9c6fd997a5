use vstd::prelude::*;

verus! {

/// The five channels of a track.
#[derive(Debug, Clone, Copy, PartialEq, Eq)]
pub enum Field {
    Alt,
    Lat,
    Lon,
    Speed,
    Time,
}

/// One sample of a track; `T` is the sample type.
#[derive(Debug, Clone, Copy, PartialEq)]
pub struct Point<T> {
    pub alt: T,
    pub lat: T,
    pub lon: T,
    pub speed: T,
    pub time: T,
}

/// The decoded samples of each channel of one track.
pub struct Channels<T> {
    pub alt: Vec<T>,
    pub lat: Vec<T>,
    pub lon: Vec<T>,
    pub speed: Vec<T>,
    pub time: Vec<T>,
}

/// A channel whose length differs from the track's declared size. It is
/// reported, not fatal: the points past the channel's end keep the default.
#[derive(Debug, Clone, Copy, PartialEq, Eq)]
pub struct LengthMismatch {
    pub field: Field,
    pub actual: usize,
    pub expected: usize,
}

/// The `i`-th sample of channel `c`, or `zero` past its end.
pub open spec fn sample_at<T>(c: Seq<T>, i: int, zero: T) -> T {
    if i < c.len() { c[i] } else { zero }
}

/// The report for channel `field` of length `len`: one entry where `len != expected`.
pub open spec fn mismatch_of(field: Field, len: nat, expected: usize) -> Seq<LengthMismatch> {
    if len == expected {
        seq![]
    } else {
        seq![LengthMismatch { field, actual: len as usize, expected }]
    }
}

/// The reports of a track, in the channel order alt, lat, lon, speed, time.
pub open spec fn mismatches_of<T>(c: Channels<T>, expected: usize) -> Seq<LengthMismatch> {
    mismatch_of(Field::Alt, c.alt@.len(), expected) + mismatch_of(Field::Lat, c.lat@.len(), expected)
        + mismatch_of(Field::Lon, c.lon@.len(), expected) + mismatch_of(
        Field::Speed,
        c.speed@.len(),
        expected,
    ) + mismatch_of(Field::Time, c.time@.len(), expected)
}

/// Point `i` of a track assembled from `c`.
pub open spec fn point_at<T>(c: Channels<T>, i: int, zero: T) -> Point<T> {
    Point {
        alt: sample_at(c.alt@, i, zero),
        lat: sample_at(c.lat@, i, zero),
        lon: sample_at(c.lon@, i, zero),
        speed: sample_at(c.speed@, i, zero),
        time: sample_at(c.time@, i, zero),
    }
}

fn pick<T: Copy>(c: &Vec<T>, i: usize, zero: T) -> (r: T)
    ensures
        r == sample_at(c@, i as int, zero),
{
    if i < c.len() { c[i] } else { zero }
}

fn check_len<T>(out: &mut Vec<LengthMismatch>, field: Field, c: &Vec<T>, expected: usize)
    ensures
        final(out)@ == old(out)@ + mismatch_of(field, c@.len(), expected),
{
    if c.len() != expected {
        out.push(LengthMismatch { field, actual: c.len(), expected });
    } else {
        assert(old(out)@ + mismatch_of(field, c@.len(), expected) =~= old(out)@);
    }
}

/// Builds the `expected` points of a track from its channels, position by
/// position; a field past the end of a short channel is `zero`. Reports each
/// channel whose length is not `expected`.
pub fn assemble<T: Copy>(channels: &Channels<T>, expected: usize, zero: T) -> (r: (
    Vec<Point<T>>,
    Vec<LengthMismatch>,
))
    ensures
        r.0@.len() == expected,
        forall|i: int| 0 <= i < expected ==> #[trigger] r.0@[i] == point_at(*channels, i, zero),
        r.1@ == mismatches_of(*channels, expected),
{
    let mut report: Vec<LengthMismatch> = Vec::new();
    check_len(&mut report, Field::Alt, &channels.alt, expected);
    check_len(&mut report, Field::Lat, &channels.lat, expected);
    check_len(&mut report, Field::Lon, &channels.lon, expected);
    check_len(&mut report, Field::Speed, &channels.speed, expected);
    check_len(&mut report, Field::Time, &channels.time, expected);
    assert(report@ =~= mismatches_of(*channels, expected));
    let mut points: Vec<Point<T>> = Vec::new();
    let mut i: usize = 0;
    while i < expected
        invariant
            i <= expected,
            points@.len() == i,
            forall|j: int| 0 <= j < i ==> #[trigger] points@[j] == point_at(*channels, j, zero),
        decreases expected - i,
    {
        let p = Point {
            alt: pick(&channels.alt, i, zero),
            lat: pick(&channels.lat, i, zero),
            lon: pick(&channels.lon, i, zero),
            speed: pick(&channels.speed, i, zero),
            time: pick(&channels.time, i, zero),
        };
        points.push(p);
        i = i + 1;
    }
    (points, report)
}

/// Track `a` comes before track `b`: by key, then by position.
pub open spec fn ordered_before(keys: Seq<Option<i64>>, a: usize, b: usize) -> bool {
    let ka = keys[a as int].unwrap();
    let kb = keys[b as int].unwrap();
    ka < kb || (ka == kb && a < b)
}

/// `order` lists tracks strictly ascending by key, ties in their original order.
pub open spec fn is_ordered(keys: Seq<Option<i64>>, order: Seq<usize>) -> bool {
    forall|a: int, b: int|
        0 <= a < b < order.len() ==> ordered_before(keys, #[trigger] order[a], #[trigger] order[b])
}

fn key_of(keys: &Vec<Option<i64>>, t: usize) -> (k: i64)
    requires
        t < keys@.len(),
        keys@[t as int] is Some,
    ensures
        k == keys@[t as int].unwrap(),
{
    match keys[t] {
        Some(k) => k,
        None => 0,
    }
}

/// The order in which to emit tracks, given each track's sort key: the floor of
/// its first point's time, or `None` for a track without points. Tracks without
/// points are left out; the others come ascending by key, stably.
pub fn track_order(keys: &Vec<Option<i64>>) -> (r: Vec<usize>)
    ensures
        is_ordered(keys@, r@),
        forall|a: int| 0 <= a < r@.len() ==> #[trigger] r@[a] < keys@.len() && keys@[r@[a] as int] is Some,
        forall|j: int| 0 <= j < keys@.len() && (#[trigger] keys@[j]) is Some ==> r@.contains(j as usize),
{
    let mut r: Vec<usize> = Vec::new();
    let mut i: usize = 0;
    while i < keys.len()
        invariant
            i <= keys@.len(),
            is_ordered(keys@, r@),
            forall|a: int| 0 <= a < r@.len() ==> #[trigger] r@[a] < i && keys@[r@[a] as int] is Some,
            forall|j: int| 0 <= j < i && (#[trigger] keys@[j]) is Some ==> r@.contains(j as usize),
        decreases keys@.len() - i,
    {
        match keys[i] {
            None => {},
            Some(k) => {
                let mut p: usize = r.len();
                while p > 0 && key_of(keys, r[p - 1]) > k
                    invariant
                        p <= r@.len(),
                        forall|a: int| 0 <= a < r@.len() ==> #[trigger] r@[a] < i && keys@[r@[a] as int] is Some,
                        keys@[i as int] == Some(k),
                        i < keys@.len(),
                        forall|q: int| p <= q < r@.len() ==> keys@[#[trigger] r@[q] as int].unwrap() > k,
                    decreases p,
                {
                    p = p - 1;
                }
                let ghost old_r = r@;
                r.insert(p, i);
                assert(r@ == old_r.insert(p as int, i));
                assert forall|a: int, b: int| 0 <= a < b < r@.len() implies ordered_before(
                    keys@,
                    #[trigger] r@[a],
                    #[trigger] r@[b],
                ) by {
                    if b < p {
                        assert(ordered_before(keys@, old_r[a], old_r[b]));
                    } else if b == p {
                        if a < p - 1 {
                            assert(ordered_before(keys@, old_r[a], old_r[p - 1]));
                        }
                    } else if a == p {
                    } else if a < p {
                        assert(ordered_before(keys@, old_r[a], old_r[b - 1]));
                    } else {
                        assert(ordered_before(keys@, old_r[a - 1], old_r[b - 1]));
                    }
                }
                assert forall|j: int| 0 <= j <= i && (#[trigger] keys@[j]) is Some implies r@.contains(
                    j as usize,
                ) by {
                    if j < i {
                        assert(old_r.contains(j as usize));
                        let a = choose|a: int| 0 <= a < old_r.len() && old_r[a] == j as usize;
                        if a < p {
                            assert(r@[a] == j as usize);
                        } else {
                            assert(r@[a + 1] == j as usize);
                        }
                    } else {
                        assert(r@[p as int] == i);
                    }
                }
            },
        }
        i = i + 1;
    }
    r
}

} // verus!
