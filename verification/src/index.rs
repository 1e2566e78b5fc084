//! A nearest-neighbour index over points of the latitude/longitude plane.
//!
//! Coordinates are whole micro-degrees. Distance is the flat Euclidean one
//! over those numbers, not the distance on the globe: close to the poles a
//! degree of longitude is shorter than the metric takes it to be.

use vstd::prelude::*;
use vstd::multiset::*;
use rstar::primitives::GeomWithData;
use rstar::RTree;

verus! {

/// The largest latitude, 90 degrees.
pub const MAX_LATITUDE: i64 = 90_000_000i64;

/// The largest longitude, 180 degrees.
pub const MAX_LONGITUDE: i64 = 180_000_000i64;

/// A latitude between the poles.
pub open spec fn valid_latitude(lat: int) -> bool {
    -(MAX_LATITUDE as int) <= lat <= MAX_LATITUDE as int
}

/// A longitude between the two sides of the antimeridian.
pub open spec fn valid_longitude(lng: int) -> bool {
    -(MAX_LONGITUDE as int) <= lng <= MAX_LONGITUDE as int
}

/// The square of the flat distance between two coordinate pairs.
pub open spec fn dist2(lat_a: int, lng_a: int, lat_b: int, lng_b: int) -> int {
    (lat_a - lat_b) * (lat_a - lat_b) + (lng_a - lng_b) * (lng_a - lng_b)
}

/// A location, in whole micro-degrees, with an optional label.
#[derive(Clone, Debug)]
pub struct GeoPoint {
    pub latitude: i64,
    pub longitude: i64,
    pub label: Option<Vec<u8>>,
}

impl GeoPoint {
    /// Both coordinates are in range.
    pub open spec fn valid(&self) -> bool {
        valid_latitude(self.latitude as int) && valid_longitude(self.longitude as int)
    }

    /// Whether both coordinates are in range.
    pub fn is_valid(&self) -> (r: bool)
        ensures
            r == self.valid(),
    {
        -MAX_LATITUDE <= self.latitude && self.latitude <= MAX_LATITUDE && -MAX_LONGITUDE
            <= self.longitude && self.longitude <= MAX_LONGITUDE
    }

    /// The squared flat distance to the given coordinates.
    pub open spec fn dist2_to(&self, lat: int, lng: int) -> int {
        dist2(self.latitude as int, self.longitude as int, lat, lng)
    }
}

/// An `rstar::RTree` over `GeomWithData<[i64; 2], usize>`: for each stored
/// point its two coordinates and a tag. What is inside it is not visible to
/// the proofs; `tree_items` names what it holds.
#[verifier::external_body]
pub struct PointTree {
    inner: RTree<GeomWithData<[i64; 2], usize>>,
}

/// What a tree holds: for each stored item its latitude, longitude and tag.
pub uninterp spec fn tree_items(tree: PointTree) -> Multiset<(i64, i64, usize)>;

/// Every item of the tree has coordinates in range.
pub open spec fn items_in_range(tree: PointTree) -> bool {
    forall|item: (i64, i64, usize)| #[trigger]
        tree_items(tree).count(item) > 0 ==> valid_latitude(item.0 as int) && valid_longitude(
            item.1 as int,
        )
}

/// `RTree::new`: a tree that holds nothing.
#[verifier::external_body]
fn tree_new() -> (r: PointTree)
    ensures
        tree_items(r) == Multiset::<(i64, i64, usize)>::empty(),
{
    PointTree { inner: RTree::new() }
}

/// `RTree::insert`: the tree gains the one item and keeps all it had;
/// items with equal coordinates are kept side by side. The coordinates are
/// in range, so that the tree's arithmetic on areas stays inside `i64`.
#[verifier::external_body]
fn tree_insert(tree: &mut PointTree, lat: i64, lng: i64, tag: usize)
    requires
        items_in_range(*old(tree)),
        valid_latitude(lat as int),
        valid_longitude(lng as int),
    ensures
        tree_items(*final(tree)) == tree_items(*old(tree)).insert((lat, lng, tag)),
{
    tree.inner.insert(GeomWithData::new([lat, lng], tag));
}

/// `RTree::nearest_neighbor`, with the item that it finds handed out as
/// latitude, longitude and tag: nothing for an empty tree; otherwise an item
/// of the tree such that no item of the tree is closer to the query, by
/// squared Euclidean distance. Which of several closest items comes back
/// is left open. All coordinates are in range, so that the squared
/// distances stay inside `i64`.
#[verifier::external_body]
fn tree_nearest(tree: &PointTree, lat: i64, lng: i64) -> (r: Option<(i64, i64, usize)>)
    requires
        items_in_range(*tree),
        valid_latitude(lat as int),
        valid_longitude(lng as int),
    ensures
        r is None <==> tree_items(*tree).len() == 0,
        r matches Some(p) ==> tree_items(*tree).count(p) > 0 && forall|q: (i64, i64, usize)|
            #[trigger] tree_items(*tree).count(q) > 0 ==> dist2(
                p.0 as int,
                p.1 as int,
                lat as int,
                lng as int,
            ) <= dist2(q.0 as int, q.1 as int, lat as int, lng as int),
{
    tree.inner.nearest_neighbor([lat, lng]).map(|g| (g.geom()[0], g.geom()[1], g.data))
}

/// The index: the reference points in the order of their insertion, and a
/// tree over their coordinates in which each point is tagged with its place
/// in that order.
pub struct SpatialIndex {
    tree: PointTree,
    points: Vec<GeoPoint>,
}

impl View for SpatialIndex {
    type V = Seq<GeoPoint>;

    closed spec fn view(&self) -> Seq<GeoPoint> {
        self.points@
    }
}

/// `best` is a stored point of `points` to which no stored point is closer.
pub open spec fn is_nearest(points: Seq<GeoPoint>, lat: int, lng: int, best: int) -> bool {
    &&& 0 <= best < points.len()
    &&& forall|j: int|
        0 <= j < points.len() ==> points[best].dist2_to(lat, lng) <= (#[trigger] points[j]).dist2_to(
            lat,
            lng,
        )
}

impl SpatialIndex {
    /// The tree holds exactly the stored points, each once under its place,
    /// and every stored point is in range.
    pub closed spec fn wf(&self) -> bool {
        &&& forall|i: int| 0 <= i < self.points@.len() ==> (#[trigger] self.points@[i]).valid()
        &&& tree_items(self.tree).len() == self.points@.len()
        &&& forall|item: (i64, i64, usize)| #[trigger]
            tree_items(self.tree).count(item) > 0 <==> (item.2 < self.points@.len()
                && self.points@[item.2 as int].latitude == item.0
                && self.points@[item.2 as int].longitude == item.1)
    }

    /// An index without points.
    pub fn new() -> (r: Self)
        ensures
            r.wf(),
            r@ == Seq::<GeoPoint>::empty(),
    {
        SpatialIndex { tree: tree_new(), points: Vec::new() }
    }

    /// The number of stored points.
    pub fn len(&self) -> (r: usize)
        ensures
            r == self@.len(),
    {
        self.points.len()
    }

    /// The stored point at place `i`.
    pub fn point(&self, i: usize) -> (r: &GeoPoint)
        requires
            i < self@.len(),
        ensures
            *r == self@[i as int],
    {
        &self.points[i]
    }

    /// Adds a point. Points with equal coordinates are all kept.
    pub fn insert(&mut self, point: GeoPoint)
        requires
            old(self).wf(),
            point.valid(),
        ensures
            final(self).wf(),
            final(self)@ == old(self)@.push(point),
    {
        let tag: usize = self.points.len();
        let lat: i64 = point.latitude;
        let lng: i64 = point.longitude;
        tree_insert(&mut self.tree, lat, lng, tag);
        self.points.push(point);
    }

    /// The place of a stored point that is closest to the query, or `None`
    /// where the index is empty. Among several closest points the choice is
    /// left open.
    pub fn nearest_index(&self, lat: i64, lng: i64) -> (r: Option<usize>)
        requires
            self.wf(),
            valid_latitude(lat as int),
            valid_longitude(lng as int),
        ensures
            r is None <==> self@.len() == 0,
            r matches Some(i) ==> is_nearest(self@, lat as int, lng as int, i as int),
    {
        match tree_nearest(&self.tree, lat, lng) {
            None => None,
            Some(item) => {
                proof {
                    assert forall|j: int| 0 <= j < self.points@.len() implies self.points@[item.2 as int].dist2_to(
                        lat as int,
                        lng as int,
                    ) <= (#[trigger] self.points@[j]).dist2_to(lat as int, lng as int) by {
                        assert(self.points@.len() == self.points.len());
                        let other = (self.points@[j].latitude, self.points@[j].longitude, j as usize);
                        assert(other.2 as int == j);
                        assert(tree_items(self.tree).count(other) > 0);
                    }
                }
                Some(item.2)
            },
        }
    }

    /// The stored point that is closest to the query, or `None` where the
    /// index is empty. A query that has the coordinates of a stored point
    /// gets a point at distance zero.
    pub fn nearest_neighbor(&self, query: &GeoPoint) -> (r: Option<&GeoPoint>)
        requires
            self.wf(),
            query.valid(),
        ensures
            r is None <==> self@.len() == 0,
            r matches Some(p) ==> exists|i: int| #[trigger]
                is_nearest(self@, query.latitude as int, query.longitude as int, i) && *p == self@[i],
            r matches Some(p) ==> (exists|j: int|
                0 <= j < self@.len() && (#[trigger] self@[j]).dist2_to(
                    query.latitude as int,
                    query.longitude as int,
                ) == 0) ==> p.dist2_to(query.latitude as int, query.longitude as int) == 0,
    {
        match self.nearest_index(query.latitude, query.longitude) {
            None => None,
            Some(i) => {
                proof {
                    lemma_dist2_nonnegative(
                        self.points@[i as int].latitude as int,
                        self.points@[i as int].longitude as int,
                        query.latitude as int,
                        query.longitude as int,
                    );
                }
                Some(&self.points[i])
            },
        }
    }
}

/// A squared distance is never negative.
pub proof fn lemma_dist2_nonnegative(lat_a: int, lng_a: int, lat_b: int, lng_b: int)
    ensures
        dist2(lat_a, lng_a, lat_b, lng_b) >= 0,
{
    assert((lat_a - lat_b) * (lat_a - lat_b) >= 0) by (nonlinear_arith);
    assert((lng_a - lng_b) * (lng_a - lng_b) >= 0) by (nonlinear_arith);
}

} // verus!
