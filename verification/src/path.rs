//! Paths as data: whether a path is absolute, and the names it is made of.
//!
//! The separator is `/`. A path's text is cut at every separator. Empty
//! pieces and `.` name no step and are dropped; every other piece, `..`
//! included, is kept in order. Two texts that differ only in doubled
//! separators, `.` pieces or a trailing separator therefore denote the same
//! [`Route`].
//!
//! Nothing here looks at the file system: `..` is a part like any other, and
//! whether one path lies within another is a matter of their parts alone.
//! That is the right question only for canonical paths, in which links and
//! `..` have been resolved.

use crate::text::chars_of;
use vstd::prelude::*;

verus! {

/// The piece `.`, which stands for the directory it is found in.
pub open spec fn is_dot(piece: Seq<char>) -> bool {
    piece.len() == 1 && piece[0] == '.'
}

/// The piece `..`, which stands for the parent directory.
pub open spec fn is_dotdot(piece: Seq<char>) -> bool {
    piece.len() == 2 && piece[0] == '.' && piece[1] == '.'
}

/// A piece that holds no separator.
pub open spec fn sep_free(piece: Seq<char>) -> bool {
    forall|i: int| 0 <= i < piece.len() ==> piece[i] != '/'
}

/// A piece that a route keeps: not empty and not `.`.
pub open spec fn kept(piece: Seq<char>) -> bool {
    piece.len() > 0 && !is_dot(piece)
}

/// What can stand as one part of a route.
pub open spec fn is_part(piece: Seq<char>) -> bool {
    kept(piece) && sep_free(piece)
}

/// A part that names an entry of its directory, so neither `.` nor `..`.
pub open spec fn is_plain(piece: Seq<char>) -> bool {
    is_part(piece) && !is_dotdot(piece)
}

/// `done` with `piece` added at its end, if `piece` is one that is kept.
pub open spec fn close(done: Seq<Seq<char>>, piece: Seq<char>) -> Seq<Seq<char>> {
    if kept(piece) {
        done.push(piece)
    } else {
        done
    }
}

/// Reads `text` from left to right: the parts that a separator has ended, and
/// the piece that is still open at the end of `text`.
pub open spec fn scan(text: Seq<char>) -> (Seq<Seq<char>>, Seq<char>)
    decreases text.len(),
{
    if text.len() == 0 {
        (Seq::empty(), Seq::empty())
    } else {
        let (done, open) = scan(text.drop_last());
        if text.last() == '/' {
            (close(done, open), Seq::empty())
        } else {
            (done, open.push(text.last()))
        }
    }
}

/// The parts of `text`, in order.
pub open spec fn segments(text: Seq<char>) -> Seq<Seq<char>> {
    close(scan(text).0, scan(text).1)
}

/// Whether `text` starts at the root of the file system.
pub open spec fn absolute(text: Seq<char>) -> bool {
    text.len() > 0 && text[0] == '/'
}

/// The mathematical value of a [`Route`].
pub struct RouteView {
    pub absolute: bool,
    pub parts: Seq<Seq<char>>,
}

impl RouteView {
    /// Every part is a piece that a route can hold.
    pub open spec fn valid(self) -> bool {
        forall|i: int| 0 <= i < self.parts.len() ==> is_part(#[trigger] self.parts[i])
    }

    /// `self` is `base` or lies below it: both start at the same place and
    /// the parts of `base` are the first parts of `self`.
    pub open spec fn within(self, base: RouteView) -> bool {
        self.absolute == base.absolute && base.parts.is_prefix_of(self.parts)
    }

    /// `self` followed by the parts of `other`, wherever `other` starts.
    pub open spec fn extend(self, other: RouteView) -> RouteView {
        RouteView { absolute: self.absolute, parts: self.parts + other.parts }
    }

    /// `self` followed by `other`; an absolute `other` stands alone.
    pub open spec fn join(self, other: RouteView) -> RouteView {
        if other.absolute {
            other
        } else {
            self.extend(other)
        }
    }

    /// `self` followed by the one part `name`.
    pub open spec fn child(self, name: Seq<char>) -> RouteView {
        RouteView { absolute: self.absolute, parts: self.parts.push(name) }
    }

    /// `self` without its last part, if it has one.
    pub open spec fn parent(self) -> Option<RouteView> {
        if self.parts.len() == 0 {
            None
        } else {
            Some(RouteView { absolute: self.absolute, parts: self.parts.drop_last() })
        }
    }

    /// The last part, if there is one and it names an entry.
    pub open spec fn file_name(self) -> Option<Seq<char>> {
        if self.parts.len() == 0 || is_dotdot(self.parts.last()) {
            None
        } else {
            Some(self.parts.last())
        }
    }

    /// The parts of `self` below `base`, as a relative route.
    pub open spec fn below(self, base: RouteView) -> Option<RouteView> {
        if self.within(base) {
            Some(
                RouteView {
                    absolute: false,
                    parts: self.parts.subrange(base.parts.len() as int, self.parts.len() as int),
                },
            )
        } else {
            None
        }
    }

    /// Whether a part from position `from` on is `..`.
    pub open spec fn climbs_from(self, from: int) -> bool {
        exists|i: int| from <= i < self.parts.len() && is_dotdot(#[trigger] self.parts[i])
    }
}

/// The texts of a list of strings.
pub open spec fn texts(parts: Seq<String>) -> Seq<Seq<char>> {
    Seq::new(parts.len(), |i: int| parts[i]@)
}

/// The route that `text` denotes.
pub open spec fn route_of(text: Seq<char>) -> RouteView {
    RouteView { absolute: absolute(text), parts: segments(text) }
}

/// Whether `name` names one entry of a directory: a relative text with one
/// part, which is not `..`.
pub open spec fn names_entry(name: Seq<char>) -> bool {
    !absolute(name) && segments(name).len() == 1 && !is_dotdot(segments(name)[0])
}

/// A path, held as the list of its parts.
#[derive(Debug)]
pub struct Route {
    pub(crate) absolute: bool,
    pub(crate) parts: Vec<String>,
}

impl View for Route {
    type V = RouteView;

    closed spec fn view(&self) -> RouteView {
        RouteView { absolute: self.absolute, parts: texts(self.parts@) }
    }
}

impl Route {
    /// Every part of a route is a piece that a route keeps.
    #[verifier::type_invariant]
    pub closed spec fn inv(self) -> bool {
        self@.valid()
    }
}

/// Every part that `scan` has closed is a part, and the open piece holds no
/// separator.
pub proof fn lemma_scan_parts(text: Seq<char>)
    ensures
        sep_free(scan(text).1),
        forall|i: int| 0 <= i < scan(text).0.len() ==> is_part(#[trigger] scan(text).0[i]),
        forall|i: int| 0 <= i < segments(text).len() ==> is_part(#[trigger] segments(text)[i]),
    decreases text.len(),
{
    if text.len() > 0 {
        lemma_scan_parts(text.drop_last());
    }
}

/// The parts of a route written one after the other with a separator between
/// each two.
pub open spec fn glue(parts: Seq<Seq<char>>) -> Seq<char>
    decreases parts.len(),
{
    if parts.len() == 0 {
        Seq::empty()
    } else if parts.len() == 1 {
        parts[0]
    } else {
        glue(parts.drop_last()) + seq!['/'] + parts.last()
    }
}

/// The text of a route: a leading separator if it is absolute, then its
/// parts. The relative route without parts is written `.`.
pub open spec fn render(route: RouteView) -> Seq<char> {
    if route.absolute {
        seq!['/'] + glue(route.parts)
    } else if route.parts.len() == 0 {
        seq!['.']
    } else {
        glue(route.parts)
    }
}

/// Reading on after a separator: what was read before the separator is
/// closed, and the rest is read as if it stood alone.
pub proof fn lemma_scan_after_sep(a: Seq<char>, b: Seq<char>)
    ensures
        scan(a + seq!['/'] + b) == (segments(a) + scan(b).0, scan(b).1),
    decreases b.len(),
{
    let whole = a + seq!['/'] + b;
    if b.len() == 0 {
        assert(whole.drop_last() == a);
        assert(segments(a) + Seq::<Seq<char>>::empty() == segments(a));
    } else {
        lemma_scan_after_sep(a, b.drop_last());
        assert(whole.drop_last() == a + seq!['/'] + b.drop_last());
        assert(whole.last() == b.last());
        let (done, open) = scan(b.drop_last());
        if b.last() == '/' {
            if kept(open) {
                assert((segments(a) + done).push(open) == segments(a) + done.push(open));
            }
        }
    }
}

/// The parts of two texts put together with a separator are the parts of the
/// first followed by the parts of the second.
pub proof fn lemma_segments_concat(a: Seq<char>, b: Seq<char>)
    ensures
        segments(a + seq!['/'] + b) == segments(a) + segments(b),
{
    lemma_scan_after_sep(a, b);
    let (done, open) = scan(b);
    if kept(open) {
        assert((segments(a) + done).push(open) == segments(a) + done.push(open));
    }
}

/// A text without separators is one open piece.
pub proof fn lemma_scan_sep_free(piece: Seq<char>)
    requires
        sep_free(piece),
    ensures
        scan(piece) == (Seq::<Seq<char>>::empty(), piece),
    decreases piece.len(),
{
    if piece.len() == 0 {
        assert(piece == Seq::<char>::empty());
    } else {
        lemma_scan_sep_free(piece.drop_last());
        assert(piece.drop_last().push(piece.last()) == piece);
    }
}

/// The text of a non-empty list of parts starts with the first character of
/// its first part.
pub proof fn lemma_glue_first(parts: Seq<Seq<char>>)
    requires
        parts.len() > 0,
        forall|i: int| 0 <= i < parts.len() ==> is_part(#[trigger] parts[i]),
    ensures
        glue(parts).len() > 0,
        glue(parts)[0] == parts[0][0],
    decreases parts.len(),
{
    if parts.len() > 1 {
        lemma_glue_first(parts.drop_last());
    }
}

/// Reading the text of a list of parts gives the list back.
pub proof fn lemma_segments_glue(parts: Seq<Seq<char>>)
    requires
        forall|i: int| 0 <= i < parts.len() ==> is_part(#[trigger] parts[i]),
    ensures
        segments(glue(parts)) == parts,
    decreases parts.len(),
{
    if parts.len() == 0 {
        assert(segments(glue(parts)) == parts);
    } else if parts.len() == 1 {
        lemma_scan_sep_free(parts[0]);
        assert(Seq::<Seq<char>>::empty().push(parts[0]) == parts);
    } else {
        let init = parts.drop_last();
        lemma_segments_glue(init);
        lemma_segments_concat(glue(init), parts.last());
        lemma_scan_sep_free(parts.last());
        assert(segments(parts.last()) == Seq::<Seq<char>>::empty().push(parts.last()));
        assert(init + Seq::<Seq<char>>::empty().push(parts.last()) == parts);
    }
}

/// Writing a route and reading the text again gives the route back.
pub proof fn lemma_render_then_read(route: RouteView)
    requires
        route.valid(),
    ensures
        route_of(render(route)) == route,
{
    lemma_segments_glue(route.parts);
    if route.absolute {
        lemma_segments_concat(Seq::<char>::empty(), glue(route.parts));
        assert(Seq::<char>::empty() + seq!['/'] + glue(route.parts) == seq!['/'] + glue(
            route.parts,
        ));
        assert(segments(Seq::<char>::empty()) + route.parts == route.parts);
    } else if route.parts.len() == 0 {
        let dot = seq!['.'];
        assert(dot.drop_last() == Seq::<char>::empty());
        assert(scan(dot) == (Seq::<Seq<char>>::empty(), Seq::<char>::empty().push('.')));
        assert(is_dot(Seq::<char>::empty().push('.')));
        assert(segments(dot) == route.parts);
    } else {
        lemma_glue_first(route.parts);
    }
}

impl Route {
    /// Reads a path from its text.
    pub fn parse(text: &str) -> (route: Route)
        ensures
            route@ == route_of(text@),
            route@.valid(),
    {
        let chars = chars_of(text);
        let n: usize = chars.len();
        let mut parts: Vec<String> = Vec::new();
        let mut start: usize = 0;
        let mut i: usize = 0;
        while i < n
            invariant
                chars@ == text@,
                n == chars@.len(),
                start <= i <= n,
                scan(text@.take(i as int)) == (texts(parts@), text@.subrange(start as int, i as int)),
            decreases n - i,
        {
            proof {
                assert(text@.take(i as int + 1).drop_last() == text@.take(i as int));
            }
            if chars[i] == '/' {
                if i > start && !(i - start == 1 && chars[start] == '.') {
                    let piece = text.substring_char(start, i).to_owned();
                    proof {
                        assert(texts(parts@).push(piece@) == texts(parts@.push(piece)));
                    }
                    parts.push(piece);
                }
                start = i + 1;
                proof {
                    assert(text@.subrange(start as int, start as int) == Seq::<char>::empty());
                }
            } else {
                proof {
                    assert(text@.subrange(start as int, i as int).push(text@[i as int])
                        == text@.subrange(start as int, i as int + 1));
                }
            }
            i = i + 1;
        }
        proof {
            assert(text@.take(n as int) == text@);
        }
        if n > start && !(n - start == 1 && chars[start] == '.') {
            let piece = text.substring_char(start, n).to_owned();
            proof {
                assert(texts(parts@).push(piece@) == texts(parts@.push(piece)));
            }
            parts.push(piece);
        }
        let absolute = n > 0 && chars[0] == '/';
        proof {
            lemma_scan_parts(text@);
            assert(texts(parts@) == segments(text@));
        }
        Route { absolute, parts }
    }
}

/// Every route lies within itself.
pub proof fn lemma_within_self(route: RouteView)
    ensures
        route.within(route),
{
    assert(route.parts.subrange(0, route.parts.len() as int) == route.parts);
}

/// What lies within a route lies within everything that the route lies
/// within.
pub proof fn lemma_within_chain(inner: RouteView, middle: RouteView, outer: RouteView)
    requires
        inner.within(middle),
        middle.within(outer),
    ensures
        inner.within(outer),
{
    let n = outer.parts.len() as int;
    assert(outer.parts =~= middle.parts.subrange(0, n));
    assert(middle.parts =~= inner.parts.subrange(0, middle.parts.len() as int));
    assert forall|i: int| 0 <= i < n implies outer.parts[i] == inner.parts.subrange(0, n)[i] by {
        assert(outer.parts[i] == middle.parts.subrange(0, n)[i]);
        assert(middle.parts[i] == inner.parts.subrange(0, middle.parts.len() as int)[i]);
    }
    assert(outer.parts =~= inner.parts.subrange(0, n));
}

/// A route lies within its parent, and so within every route one part
/// shorter that it starts with.
pub proof fn lemma_within_parent(route: RouteView)
    requires
        route.parts.len() > 0,
    ensures
        route.within(route.parent().unwrap()),
{
    let up = route.parts.drop_last();
    assert(up =~= route.parts.subrange(0, up.len() as int));
}

/// An entry of a directory lies within whatever the directory lies within.
pub proof fn lemma_child_within(dir: RouteView, name: Seq<char>, base: RouteView)
    requires
        dir.within(base),
    ensures
        dir.child(name).within(dir),
        dir.child(name).within(base),
        dir.child(name).parent() == Some(dir),
{
    let child = dir.child(name);
    assert(child.parts.drop_last() == dir.parts);
    lemma_within_parent(child);
    lemma_within_chain(child, dir, base);
}

/// Joining, extending, going up and going down keep a route well formed,
/// and every route read from a text is well formed.
pub proof fn lemma_valid_routes(a: RouteView, b: RouteView, name: Seq<char>, text: Seq<char>)
    ensures
        route_of(text).valid(),
        a.valid() && b.valid() ==> a.extend(b).valid() && a.join(b).valid(),
        a.valid() && a.parent().is_some() ==> a.parent().unwrap().valid(),
        a.valid() && is_part(name) ==> a.child(name).valid(),
        a.valid() && a.file_name().is_some() ==> is_plain(a.file_name().unwrap()),
        names_entry(text) ==> is_plain(segments(text)[0]),
{
    lemma_scan_parts(text);
    if a.valid() && b.valid() {
        let joined = a.extend(b);
        assert forall|i: int| 0 <= i < joined.parts.len() implies is_part(
            #[trigger] joined.parts[i],
        ) by {
            if i < a.parts.len() {
                assert(joined.parts[i] == a.parts[i]);
            } else {
                assert(joined.parts[i] == b.parts[i - a.parts.len()]);
            }
        }
    }
    if a.valid() && a.parent().is_some() {
        let up = a.parent().unwrap();
        assert forall|i: int| 0 <= i < up.parts.len() implies is_part(#[trigger] up.parts[i]) by {
            assert(up.parts[i] == a.parts[i]);
        }
    }
    if a.valid() && is_part(name) {
        let down = a.child(name);
        assert forall|i: int| 0 <= i < down.parts.len() implies is_part(
            #[trigger] down.parts[i],
        ) by {
            if i < a.parts.len() {
                assert(down.parts[i] == a.parts[i]);
            }
        }
    }
    if a.valid() && a.file_name().is_some() {
        assert(is_part(a.parts[a.parts.len() - 1]));
    }
    if names_entry(text) {
        assert(is_part(segments(text)[0]));
    }
}

/// Whether `text` is the piece `..`.
pub fn text_is_dotdot(text: &str) -> (yes: bool)
    ensures
        yes == is_dotdot(text@),
{
    text.unicode_len() == 2 && text.get_char(0) == '.' && text.get_char(1) == '.'
}

/// Copies the strings of `parts` from position `from` up to, not including,
/// position `to`.
pub fn copy_parts(parts: &Vec<String>, from: usize, to: usize) -> (out: Vec<String>)
    requires
        from <= to <= parts@.len(),
    ensures
        texts(out@) == texts(parts@).subrange(from as int, to as int),
{
    let mut out: Vec<String> = Vec::new();
    let mut i: usize = from;
    while i < to
        invariant
            from <= i <= to <= parts@.len(),
            texts(out@) == texts(parts@).subrange(from as int, i as int),
        decreases to - i,
    {
        let piece = parts[i].clone();
        proof {
            let grown = texts(out@.push(piece));
            let wanted = texts(parts@).subrange(from as int, i as int + 1);
            assert(piece@ == parts@[i as int]@);
            assert(texts(out@).len() == out@.len());
            assert(texts(parts@).subrange(from as int, i as int).len() == i - from);
            assert(grown.len() == wanted.len());
            assert forall|j: int| 0 <= j < grown.len() implies grown[j] == wanted[j] by {
                if j < out@.len() {
                    assert(grown[j] == texts(out@)[j]);
                    assert(texts(out@)[j] == texts(parts@).subrange(from as int, i as int)[j]);
                }
            }
            assert(grown == wanted);
        }
        out.push(piece);
        i = i + 1;
    }
    out
}

impl Clone for Route {
    fn clone(&self) -> (route: Route)
        ensures
            route@ == self@,
    {
        proof {
            use_type_invariant(self);
        }
        let parts = copy_parts(&self.parts, 0, self.parts.len());
        proof {
            assert(texts(parts@) == texts(self.parts@));
        }
        Route { absolute: self.absolute, parts }
    }
}

impl Route {
    /// The relative route without parts.
    pub fn empty() -> (route: Route)
        ensures
            route@ == (RouteView { absolute: false, parts: Seq::empty() }),
    {
        let parts: Vec<String> = Vec::new();
        proof {
            assert(texts(parts@) == Seq::<Seq<char>>::empty());
        }
        Route { absolute: false, parts }
    }

    /// Whether the route starts at the root of the file system.
    pub fn is_absolute(&self) -> (yes: bool)
        ensures
            yes == self@.absolute,
    {
        self.absolute
    }

    /// The number of parts.
    pub fn depth(&self) -> (n: usize)
        ensures
            n == self@.parts.len(),
    {
        self.parts.len()
    }

    /// Writes the parts with a separator between each two.
    pub fn relative_text(&self) -> (text: String)
        ensures
            text@ == glue(self@.parts),
    {
        proof {
            reveal_strlit("/");
            assert("/"@ == seq!['/']);
        }
        let n: usize = self.parts.len();
        let mut text = String::new();
        let mut i: usize = 0;
        while i < n
            invariant
                n == self.parts@.len(),
                i <= n,
                "/"@ == seq!['/'],
                text@ == glue(texts(self.parts@).take(i as int)),
            decreases n - i,
        {
            let ghost upto = texts(self.parts@).take(i as int + 1);
            proof {
                assert(upto.drop_last() == texts(self.parts@).take(i as int));
                assert(upto.last() == self.parts@[i as int]@);
            }
            if i > 0 {
                text.append("/");
            }
            text.append(self.parts[i].as_str());
            proof {
                assert(text@ == glue(upto));
            }
            i = i + 1;
        }
        proof {
            assert(texts(self.parts@).take(n as int) == texts(self.parts@));
        }
        text
    }

    /// Writes the route as text. Reading the text gives the route back.
    pub fn render(&self) -> (text: String)
        ensures
            text@ == render(self@),
            route_of(text@) == self@,
    {
        proof {
            use_type_invariant(self);
            lemma_render_then_read(self@);
            reveal_strlit("/");
            reveal_strlit(".");
            assert("/"@ == seq!['/']);
            assert("."@ == seq!['.']);
        }
        if self.absolute {
            String::from_str("/").concat(self.relative_text().as_str())
        } else if self.parts.len() == 0 {
            String::from_str(".")
        } else {
            self.relative_text()
        }
    }

    /// The route `self` followed by the parts of `other`.
    pub fn extend(&self, other: &Route) -> (route: Route)
        ensures
            route@ == self@.extend(other@),
    {
        proof {
            use_type_invariant(self);
            use_type_invariant(other);
        }
        let mut parts = copy_parts(&self.parts, 0, self.parts.len());
        let mut tail = copy_parts(&other.parts, 0, other.parts.len());
        let ghost a = parts@;
        let ghost b = tail@;
        parts.append(&mut tail);
        proof {
            assert(texts(a) == texts(self.parts@));
            assert(texts(b) == texts(other.parts@));
            assert(texts(parts@) == texts(self.parts@) + texts(other.parts@));
            assert forall|i: int| 0 <= i < texts(parts@).len() implies is_part(
                #[trigger] texts(parts@)[i],
            ) by {
                if i < self@.parts.len() {
                    assert(texts(parts@)[i] == self@.parts[i]);
                } else {
                    assert(texts(parts@)[i] == other@.parts[i - self@.parts.len()]);
                }
            }
        }
        Route { absolute: self.absolute, parts }
    }

    /// The one part of `name`, where `name` names an entry of a directory.
    pub fn entry_name(name: &str) -> (part: Option<String>)
        ensures
            match part {
                Some(text) => names_entry(name@) && text@ == segments(name@)[0] && is_plain(text@),
                None => !names_entry(name@),
            },
    {
        let route = Route::parse(name);
        if route.absolute || route.parts.len() != 1 {
            return None;
        }
        proof {
            assert(route@.parts[0] == route.parts@[0]@);
            assert(is_part(route@.parts[0]));
        }
        if text_is_dotdot(route.parts[0].as_str()) {
            None
        } else {
            Some(route.parts[0].clone())
        }
    }

    /// The route `self` followed by `other`; an absolute `other` stands alone.
    pub fn join(&self, other: &Route) -> (route: Route)
        ensures
            route@ == self@.join(other@),
    {
        if other.absolute {
            other.clone()
        } else {
            self.extend(other)
        }
    }

    /// The route `self` followed by the one part `name`.
    pub(crate) fn child(&self, name: &str) -> (route: Route)
        requires
            is_part(name@),
        ensures
            route@ == self@.child(name@),
    {
        proof {
            use_type_invariant(self);
        }
        let mut parts = copy_parts(&self.parts, 0, self.parts.len());
        let piece = name.to_owned();
        proof {
            assert(texts(parts@) == texts(self.parts@));
            assert(texts(parts@.push(piece)) == texts(self.parts@).push(name@));
        }
        parts.push(piece);
        proof {
            assert forall|i: int| 0 <= i < texts(parts@).len() implies is_part(
                #[trigger] texts(parts@)[i],
            ) by {
                if i < self@.parts.len() {
                    assert(texts(parts@)[i] == self@.parts[i]);
                }
            }
        }
        Route { absolute: self.absolute, parts }
    }

    /// The route without its last part; `None` where it has no part.
    pub fn parent(&self) -> (up: Option<Route>)
        ensures
            match up {
                Some(route) => self@.parent() == Some(route@),
                None => self@.parent().is_none(),
            },
    {
        proof {
            use_type_invariant(self);
        }
        let n: usize = self.parts.len();
        if n == 0 {
            None
        } else {
            let parts = copy_parts(&self.parts, 0, n - 1);
            proof {
                assert(texts(parts@) == texts(self.parts@).drop_last());
            }
            Some(Route { absolute: self.absolute, parts })
        }
    }

    /// The last part, where it names an entry; `None` where the route has no
    /// part or ends in `..`.
    pub fn file_name(&self) -> (name: Option<String>)
        ensures
            match name {
                Some(text) => self@.file_name() == Some(text@) && is_plain(text@),
                None => self@.file_name().is_none(),
            },
    {
        proof {
            use_type_invariant(self);
        }
        let n: usize = self.parts.len();
        if n == 0 {
            return None;
        }
        proof {
            assert(texts(self.parts@).last() == self.parts@[n - 1]@);
            assert(is_part(texts(self.parts@)[n - 1]));
        }
        if text_is_dotdot(self.parts[n - 1].as_str()) {
            None
        } else {
            Some(self.parts[n - 1].clone())
        }
    }

    /// Whether `self` is `base` or lies below it.
    pub fn starts_with(&self, base: &Route) -> (yes: bool)
        ensures
            yes == self@.within(base@),
    {
        if self.absolute != base.absolute {
            return false;
        }
        let n: usize = base.parts.len();
        if n > self.parts.len() {
            return false;
        }
        let mut i: usize = 0;
        while i < n
            invariant
                n == base.parts@.len(),
                n <= self.parts@.len(),
                i <= n,
                forall|j: int| 0 <= j < i ==> self.parts@[j]@ == base.parts@[j]@,
            decreases n - i,
        {
            if self.parts[i] != base.parts[i] {
                proof {
                    let mine = texts(self.parts@);
                    assert(mine.subrange(0, n as int)[i as int] == mine[i as int]);
                    assert(texts(base.parts@)[i as int] == base.parts@[i as int]@);
                }
                return false;
            }
            i = i + 1;
        }
        proof {
            assert(texts(base.parts@) =~= texts(self.parts@).subrange(0, n as int));
        }
        true
    }

    /// The parts of `self` below `base`, as a relative route; `None` where
    /// `self` does not lie within `base`.
    pub fn strip_prefix(&self, base: &Route) -> (rest: Option<Route>)
        ensures
            match rest {
                Some(route) => self@.below(base@) == Some(route@),
                None => self@.below(base@).is_none(),
            },
    {
        proof {
            use_type_invariant(self);
        }
        if self.starts_with(base) {
            let parts = copy_parts(&self.parts, base.parts.len(), self.parts.len());
            Some(Route { absolute: false, parts })
        } else {
            None
        }
    }

    /// Whether a part at position `from` or later is `..`.
    pub fn climbs_from(&self, from: usize) -> (yes: bool)
        ensures
            yes == self@.climbs_from(from as int),
    {
        let n: usize = self.parts.len();
        let mut i: usize = from;
        while i < n
            invariant
                n == self.parts@.len(),
                from <= i,
                forall|j: int| from <= j < i && j < n ==> !is_dotdot(#[trigger] self@.parts[j]),
            decreases n - i,
        {
            proof {
                assert(self@.parts[i as int] == self.parts@[i as int]@);
            }
            if text_is_dotdot(self.parts[i].as_str()) {
                return true;
            }
            i = i + 1;
        }
        false
    }
}

} // verus!
