use vstd::prelude::*;
use crate::method::ReqMethod;
use crate::text::{chars_of, same_chars, split_chars, split_on, string_of, views};

verus! {

/// Whether a pattern segment is matched literally or stands for any value.
#[derive(Debug, Clone, Copy, PartialEq, Eq, Structural)]
pub enum PathItemType {
    Static,
    Dynamic,
}

/// Why a path pattern was refused.
#[derive(Debug, Clone, Copy, PartialEq, Eq, Structural)]
pub enum PatternError {
    /// The pattern does not start with `/`.
    MissingLeadingSlash,
}

/// The `/`-separated segments of a path.
pub open spec fn segments(path: Seq<char>) -> Seq<Seq<char>> {
    split_on(path, '/')
}

/// A segment that starts with `:` is dynamic; any other is static.
pub open spec fn kind_of(seg: Seq<char>) -> PathItemType {
    if seg.len() > 0 && seg[0] == ':' {
        PathItemType::Dynamic
    } else {
        PathItemType::Static
    }
}

/// A pattern must start with `/`.
pub open spec fn valid_pattern(path: Seq<char>) -> bool {
    path.len() > 0 && path[0] == '/'
}

/// The compiled form of a pattern: each segment with its kind.
pub open spec fn pattern_of(path: Seq<char>) -> Seq<(PathItemType, Seq<char>)> {
    segments(path).map_values(|g: Seq<char>| (kind_of(g), g))
}

/// A static item matches its own text; a dynamic one any non-empty segment.
pub open spec fn item_fits(item: (PathItemType, Seq<char>), seg: Seq<char>) -> bool {
    match item.0 {
        PathItemType::Static => item.1 == seg,
        PathItemType::Dynamic => seg.len() > 0,
    }
}

/// A pattern matches segments of the same count, item by item.
pub open spec fn pattern_fits(p: Seq<(PathItemType, Seq<char>)>, segs: Seq<Seq<char>>) -> bool {
    p.len() == segs.len() && forall|i: int| 0 <= i < p.len() ==> item_fits(p[i], segs[i])
}

/// What a route answers: a pattern, and a method or any method.
pub struct RouteView {
    pub pattern: Seq<(PathItemType, Seq<char>)>,
    pub method: Option<ReqMethod>,
}

/// A route answers a request when its pattern fits the path's segments and
/// its method, if it names one, is the request's.
pub open spec fn route_fits(r: RouteView, segs: Seq<Seq<char>>, m: ReqMethod) -> bool {
    pattern_fits(r.pattern, segs) && (r.method is None || r.method == Some(m))
}

/// A registered pattern and a path with as many segments, where the path has
/// a non-empty segment at every dynamic position: they match exactly when
/// every static segment of the pattern equals the path's segment at the same
/// position.
pub proof fn lemma_match_by_segments(p: Seq<char>, r: Seq<char>)
    requires
        valid_pattern(p),
        segments(p).len() == segments(r).len(),
        forall|i: int|
            0 <= i < segments(p).len() && kind_of(segments(p)[i]) == PathItemType::Dynamic
                ==> segments(r)[i].len() > 0,
    ensures
        pattern_fits(pattern_of(p), segments(r)) <==> forall|i: int|
            0 <= i < segments(p).len() && kind_of(segments(p)[i]) == PathItemType::Static
                ==> segments(p)[i] == segments(r)[i],
{
    let sp = segments(p);
    let sr = segments(r);
    let pat = pattern_of(p);
    assert(pat.len() == sp.len());
    assert forall|i: int| 0 <= i < sp.len() implies pat[i] == (kind_of(sp[i]), sp[i]) by {}
    if pattern_fits(pat, sr) {
        assert forall|i: int|
            0 <= i < sp.len() && kind_of(sp[i]) == PathItemType::Static implies sp[i] == sr[i] by {
            assert(item_fits(pat[i], sr[i]));
        }
    }
    if forall|i: int|
        0 <= i < sp.len() && kind_of(sp[i]) == PathItemType::Static ==> sp[i] == sr[i] {
        assert forall|i: int| 0 <= i < pat.len() implies item_fits(pat[i], sr[i]) by {
            if kind_of(sp[i]) == PathItemType::Static {
                assert(sp[i] == sr[i]);
            }
        }
    }
}

/// A pattern never matches a path with another number of segments, whatever
/// the segments hold and whatever the method.
pub proof fn lemma_count_mismatch(p: Seq<char>, r: Seq<char>, method: Option<ReqMethod>, m: ReqMethod)
    requires
        segments(p).len() != segments(r).len(),
    ensures
        !pattern_fits(pattern_of(p), segments(r)),
        !route_fits(RouteView { pattern: pattern_of(p), method }, segments(r), m),
{
}

/// One segment of a compiled pattern.
pub struct PathItem {
    pub kind: PathItemType,
    pub value: String,
}

impl View for PathItem {
    type V = (PathItemType, Seq<char>);

    open spec fn view(&self) -> (PathItemType, Seq<char>) {
        (self.kind, self.value@)
    }
}

impl PathItem {
    pub fn new(value: &str, kind: PathItemType) -> (r: PathItem)
        ensures
            r@ == (kind, value@),
    {
        PathItem { kind, value: value.to_owned() }
    }
}

/// The items of a pattern, in order.
pub open spec fn items_view(v: Seq<PathItem>) -> Seq<(PathItemType, Seq<char>)> {
    v.map_values(|i: PathItem| i@)
}

/// A registered route: a compiled pattern, a method, and the handler called
/// for the requests it answers.
pub struct Route<H> {
    pub paths: Vec<PathItem>,
    pub method: Option<ReqMethod>,
    pub callback: H,
}

impl<H> View for Route<H> {
    type V = RouteView;

    open spec fn view(&self) -> RouteView {
        RouteView { pattern: items_view(self.paths@), method: self.method }
    }
}

/// Whether the item matches the segment.
fn item_matches(item: &PathItem, seg: &Vec<char>) -> (r: bool)
    ensures
        r == item_fits(item@, seg@),
{
    match item.kind {
        PathItemType::Static => {
            let v = chars_of(item.value.as_str());
            same_chars(&v, seg)
        },
        PathItemType::Dynamic => seg.len() > 0,
    }
}

impl<H> Route<H> {
    /// Compiles `path` into a route for `method` (any method where `None`).
    pub fn new(path: &str, callback: H, method: Option<ReqMethod>) -> (r: Result<Route<H>, PatternError>)
        ensures
            r matches Ok(route) ==> valid_pattern(path@) && route@ == (RouteView {
                pattern: pattern_of(path@),
                method,
            }) && route.callback == callback,
            r is Err ==> !valid_pattern(path@) && r == Err::<Route<H>, _>(
                PatternError::MissingLeadingSlash,
            ),
    {
        let cs = chars_of(path);
        match Route::<H>::parse_path(&cs) {
            Ok(paths) => Ok(Route { paths, method, callback }),
            Err(e) => Err(e),
        }
    }

    /// The items of the pattern `path`, which must start with `/`.
    pub fn parse_path(path: &Vec<char>) -> (r: Result<Vec<PathItem>, PatternError>)
        ensures
            r matches Ok(items) ==> valid_pattern(path@) && items_view(items@) == pattern_of(path@),
            r is Err ==> !valid_pattern(path@) && r == Err::<Vec<PathItem>, _>(
                PatternError::MissingLeadingSlash,
            ),
    {
        if path.len() == 0 || path[0] != '/' {
            return Err(PatternError::MissingLeadingSlash);
        }
        let segs = split_chars(path, '/');
        let ghost v = views(segs@);
        let mut items: Vec<PathItem> = Vec::new();
        let mut i: usize = 0;
        while i < segs.len()
            invariant
                i <= segs@.len() == v.len(),
                v == views(segs@),
                v == segments(path@),
                items@.len() == i,
                forall|j: int| 0 <= j < i ==> items@[j]@ == (kind_of(v[j]), v[j]),
            decreases segs@.len() - i,
        {
            let seg = &segs[i];
            let kind = if seg.len() > 0 && seg[0] == ':' {
                PathItemType::Dynamic
            } else {
                PathItemType::Static
            };
            let value = string_of(seg, 0, seg.len());
            assert(value@ =~= seg@);
            items.push(PathItem { kind, value });
            i = i + 1;
        }
        assert(items_view(items@) =~= pattern_of(path@));
        Ok(items)
    }

    /// Whether this route answers a request with these path segments and
    /// this method.
    pub fn matches(&self, segs: &Vec<Vec<char>>, method: ReqMethod) -> (r: bool)
        ensures
            r == route_fits(self@, views(segs@), method),
    {
        let ghost v = views(segs@);
        let ghost p = self@.pattern;
        if self.paths.len() != segs.len() {
            return false;
        }
        let mut i: usize = 0;
        while i < self.paths.len()
            invariant
                i <= self.paths@.len() == segs@.len(),
                v == views(segs@),
                p == items_view(self.paths@),
                forall|j: int| 0 <= j < i ==> item_fits(p[j], v[j]),
            decreases self.paths@.len() - i,
        {
            assert(p[i as int] == self.paths@[i as int]@);
            assert(v[i as int] == segs@[i as int]@);
            if !item_matches(&self.paths[i], &segs[i]) {
                return false;
            }
            i = i + 1;
        }
        match self.method {
            Some(m) => m == method,
            None => true,
        }
    }
}

} // verus!
