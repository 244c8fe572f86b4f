//! Locations in object storage: a scheme, an authority (bucket or container)
//! and path segments.

use crate::error::{error_of, ErrorKind, ErrorModel};
use crate::text::{chars_of, starts_with};
use vstd::prelude::*;
use vstd::string::*;

verus! {

/// The texts of a list of strings.
pub open spec fn texts(strings: Seq<String>) -> Seq<Seq<char>> {
    strings.map_values(|s: String| s@)
}

/// Whether `s` holds no `/`.
pub open spec fn slash_free(s: Seq<char>) -> bool {
    forall|i: int| 0 <= i < s.len() ==> s[i] != '/'
}

/// A path segment: not empty and without `/`.
pub open spec fn is_segment(s: Seq<char>) -> bool {
    s.len() > 0 && slash_free(s)
}

/// The number of characters before the first `/` of `s`, or the length of `s`
/// if it holds none.
pub open spec fn first_slash(s: Seq<char>) -> int
    decreases s.len(),
{
    if s.len() == 0 || s[0] == '/' {
        0
    } else {
        1 + first_slash(s.drop_first())
    }
}

/// The segments of a path: the maximal non-empty runs without `/`, in order.
/// Empty runs (a leading, trailing or doubled `/`) give no segment.
pub open spec fn pieces(s: Seq<char>) -> Seq<Seq<char>>
    decreases s.len(),
{
    if s.len() == 0 {
        Seq::empty()
    } else if s[0] == '/' {
        pieces(s.drop_first())
    } else {
        let n = first_slash(s);
        if 0 < n <= s.len() {
            seq![s.take(n)] + pieces(s.skip(n))
        } else {
            Seq::empty()
        }
    }
}

/// `first_slash(s)` is the one index `n` with no `/` before it and with a `/`
/// or the end of `s` at it.
pub proof fn lemma_first_slash(s: Seq<char>, n: int)
    requires
        0 <= n <= s.len(),
        forall|i: int| 0 <= i < n ==> s[i] != '/',
        n < s.len() ==> s[n] == '/',
    ensures
        first_slash(s) == n,
    decreases s.len(),
{
    if n > 0 {
        lemma_first_slash(s.drop_first(), n - 1);
    }
}

/// A run without `/` that ends at a `/` or at the end of `s` is the first
/// segment of `s`.
pub proof fn lemma_pieces_run(s: Seq<char>, n: int)
    requires
        0 < n <= s.len(),
        forall|i: int| 0 <= i < n ==> s[i] != '/',
        n < s.len() ==> s[n] == '/',
    ensures
        pieces(s) == seq![s.take(n)] + pieces(s.skip(n)),
{
    lemma_first_slash(s, n);
}

/// A segment is the one segment of itself.
pub proof fn lemma_pieces_of_segment(s: Seq<char>)
    requires
        is_segment(s),
    ensures
        pieces(s) == seq![s],
{
    lemma_pieces_run(s, s.len() as int);
    assert(s.take(s.len() as int) =~= s);
    assert(pieces(s.skip(s.len() as int)) =~= Seq::<Seq<char>>::empty());
}

/// Every segment of a path is a segment: not empty and without `/`.
pub proof fn lemma_pieces_are_segments(s: Seq<char>)
    ensures
        forall|k: int| 0 <= k < pieces(s).len() ==> is_segment(#[trigger] pieces(s)[k]),
    decreases s.len(),
{
    if s.len() == 0 {
    } else if s[0] == '/' {
        lemma_pieces_are_segments(s.drop_first());
        assert(pieces(s) == pieces(s.drop_first()));
    } else {
        let n = first_slash(s);
        lemma_first_slash_bounds(s);
        lemma_pieces_are_segments(s.skip(n));
        assert(n > 0);
        assert(is_segment(s.take(n)));
        assert(pieces(s) == seq![s.take(n)] + pieces(s.skip(n)));
        assert forall|k: int| 0 <= k < pieces(s).len() implies is_segment(
            #[trigger] pieces(s)[k],
        ) by {
            if k > 0 {
                assert(pieces(s)[k] == pieces(s.skip(n))[k - 1]);
            }
        }
    }
}

/// `first_slash(s)` lies within `s`, no `/` stands before it, and a `/`
/// stands at it unless it is the end of `s`.
pub proof fn lemma_first_slash_bounds(s: Seq<char>)
    ensures
        0 <= first_slash(s) <= s.len(),
        forall|i: int| 0 <= i < first_slash(s) ==> s[i] != '/',
        first_slash(s) < s.len() ==> s[first_slash(s)] == '/',
    decreases s.len(),
{
    if s.len() == 0 || s[0] == '/' {
    } else {
        let t = s.drop_first();
        lemma_first_slash_bounds(t);
        assert forall|i: int| 0 <= i < first_slash(s) implies s[i] != '/' by {
            if i > 0 {
                assert(s[i] == t[i - 1]);
            }
        }
        if first_slash(s) < s.len() {
            assert(s[first_slash(s)] == t[first_slash(t)]);
        }
    }
}

/// Splits a path into its segments.
pub fn split_path(path: &str) -> (segments: Vec<String>)
    ensures
        texts(segments@) == pieces(path@),
{
    let chars = chars_of(path);
    let n = chars.len();
    let mut segments: Vec<String> = Vec::new();
    let mut start: usize = 0;
    let mut i: usize = 0;
    assert(path@.skip(0) =~= path@);
    assert(texts(segments@) =~= Seq::<Seq<char>>::empty());
    while i < n
        invariant
            chars@ == path@,
            n == chars.len(),
            start <= i <= n,
            forall|j: int| start <= j < i ==> path@[j] != '/',
            pieces(path@) == texts(segments@) + pieces(path@.skip(start as int)),
        decreases n - i,
    {
        if chars[i] == '/' {
            let ghost rest = path@.skip(start as int);
            if i > start {
                let piece = path.substring_char(start, i).to_owned();
                proof {
                    lemma_pieces_run(rest, i - start);
                    assert(rest.take(i - start) =~= piece@);
                    assert(rest.skip(i - start) =~= path@.skip(i as int));
                    assert(path@.skip(i as int).drop_first() =~= path@.skip(i + 1));
                    assert(texts(segments@.push(piece)) =~= texts(segments@) + seq![piece@]);
                }
                segments.push(piece);
            } else {
                assert(rest.drop_first() =~= path@.skip(i + 1));
            }
            start = i + 1;
        }
        i += 1;
    }
    let ghost rest = path@.skip(start as int);
    if n > start {
        let piece = path.substring_char(start, n).to_owned();
        proof {
            lemma_pieces_run(rest, n - start);
            assert(rest.take(n - start) =~= piece@);
            assert(rest.skip(n - start) =~= Seq::<char>::empty());
            assert(texts(segments@.push(piece)) =~= texts(segments@) + seq![piece@]);
        }
        segments.push(piece);
    }
    segments
}


/// What a location holds, as plain values.
pub struct LocationView {
    pub scheme: Seq<char>,
    pub authority: Seq<char>,
    pub segments: Seq<Seq<char>>,
    pub trailing_slash: bool,
}

/// The characters a scheme is made of: lower-case letters, digits, `+`, `-`
/// and `.`.
pub open spec fn is_scheme_char(c: char) -> bool {
    ('a' <= c && c <= 'z') || ('0' <= c && c <= '9') || c == '+' || c == '-' || c == '.'
}

/// The schemes of the object stores: `s3`, `gs`, `abfs` and `file`.
pub open spec fn is_scheme(s: Seq<char>) -> bool {
    ||| s =~= seq!['s', '3']
    ||| s =~= seq!['g', 's']
    ||| s =~= seq!['a', 'b', 'f', 's']
    ||| s =~= seq!['f', 'i', 'l', 'e']
}

/// A scheme is not empty and made of scheme characters.
pub proof fn lemma_scheme_chars(s: Seq<char>)
    requires
        is_scheme(s),
    ensures
        s.len() > 0,
        forall|i: int| 0 <= i < s.len() ==> is_scheme_char(#[trigger] s[i]),
{
}

/// The validity of a location: the scheme of an object store, an authority
/// without `/`, and segments that are not empty and hold no `/`.
pub open spec fn valid_location(v: LocationView) -> bool {
    &&& is_scheme(v.scheme)
    &&& slash_free(v.authority)
    &&& forall|k: int| 0 <= k < v.segments.len() ==> is_segment(#[trigger] v.segments[k])
}

/// The number of scheme characters `s` starts with.
pub open spec fn scheme_len(s: Seq<char>) -> int
    decreases s.len(),
{
    if s.len() == 0 || !is_scheme_char(s[0]) {
        0
    } else {
        1 + scheme_len(s.drop_first())
    }
}

/// The separator between scheme and authority.
pub open spec fn scheme_separator() -> Seq<char> {
    seq![':', '/', '/']
}

/// The location a text denotes: a scheme, `://`, an authority up to the next
/// `/`, and a path, whose segments are kept. `None` where the text does not
/// start with a scheme followed by `://`.
pub open spec fn parse_location(s: Seq<char>) -> Option<LocationView> {
    let n = scheme_len(s);
    if !is_scheme(s.take(n)) || s.len() < n + 3 || s.subrange(n, n + 3) != scheme_separator() {
        None
    } else {
        let rest = s.skip(n + 3);
        let a = first_slash(rest);
        let path = rest.skip(a);
        Some(
            LocationView {
                scheme: s.take(n),
                authority: rest.take(a),
                segments: pieces(path),
                trailing_slash: path.len() > 0 && path.last() == '/',
            },
        )
    }
}

/// The path of a list of segments: each segment with a `/` before it.
pub open spec fn join_segments(segments: Seq<Seq<char>>) -> Seq<char>
    decreases segments.len(),
{
    if segments.len() == 0 {
        Seq::empty()
    } else {
        join_segments(segments.drop_last()) + seq!['/'] + segments.last()
    }
}

/// The text of a location.
pub open spec fn location_text(v: LocationView) -> Seq<char> {
    v.scheme + scheme_separator() + v.authority + join_segments(v.segments) + (if v.trailing_slash {
        seq!['/']
    } else {
        Seq::empty()
    })
}

/// Whether two locations name the same place: a trailing slash makes no
/// difference.
pub open spec fn same_place(a: LocationView, b: LocationView) -> bool {
    a.scheme == b.scheme && a.authority == b.authority && a.segments == b.segments
}

/// Whether `l` is `base` or lies under it: same scheme and authority, and the
/// segments of `base` are the first segments of `l`.
pub open spec fn is_sublocation(l: LocationView, base: LocationView) -> bool {
    l.scheme == base.scheme && l.authority == base.authority && base.segments.is_prefix_of(
        l.segments,
    )
}

/// What `lstrip` leaves of `text`: `text` without `prefix` where it starts
/// with `prefix`, else `text`.
pub open spec fn stripped(text: Seq<char>, prefix: Seq<char>) -> Seq<char> {
    if prefix.is_prefix_of(text) {
        text.skip(prefix.len() as int)
    } else {
        text
    }
}

/// `scheme_len(s)` is the one index `n` with scheme characters before it and
/// another character or the end of `s` at it.
pub proof fn lemma_scheme_len(s: Seq<char>, n: int)
    requires
        0 <= n <= s.len(),
        forall|i: int| 0 <= i < n ==> is_scheme_char(#[trigger] s[i]),
        n < s.len() ==> !is_scheme_char(s[n]),
    ensures
        scheme_len(s) == n,
    decreases s.len(),
{
    if n > 0 {
        let t = s.drop_first();
        assert forall|i: int| 0 <= i < n - 1 implies is_scheme_char(#[trigger] t[i]) by {
            assert(t[i] == s[i + 1]);
        }
        lemma_scheme_len(t, n - 1);
    }
}

/// A location in object storage.
#[derive(Debug, Clone)]
pub struct Location {
    scheme: String,
    authority: String,
    segments: Vec<String>,
    trailing_slash: bool,
}

impl View for Location {
    type V = LocationView;

    closed spec fn view(&self) -> LocationView {
        LocationView {
            scheme: self.scheme@,
            authority: self.authority@,
            segments: texts(self.segments@),
            trailing_slash: self.trailing_slash,
        }
    }
}

fn is_scheme_char_exec(c: char) -> (b: bool)
    ensures
        b == is_scheme_char(c),
{
    ('a' <= c && c <= 'z') || ('0' <= c && c <= '9') || c == '+' || c == '-' || c == '.'
}

fn is_scheme_exec(chars: &Vec<char>, n: usize) -> (b: bool)
    requires
        n <= chars.len(),
    ensures
        b == is_scheme(chars@.take(n as int)),
{
    let ghost s = chars@.take(n as int);
    if n == 2 {
        assert(s[0] == chars[0] && s[1] == chars[1]);
        (chars[0] == 's' && chars[1] == '3') || (chars[0] == 'g' && chars[1] == 's')
    } else if n == 4 {
        assert(s[0] == chars[0] && s[1] == chars[1] && s[2] == chars[2] && s[3] == chars[3]);
        (chars[0] == 'a' && chars[1] == 'b' && chars[2] == 'f' && chars[3] == 's') || (chars[0]
            == 'f' && chars[1] == 'i' && chars[2] == 'l' && chars[3] == 'e')
    } else {
        false
    }
}

fn is_slash_free(s: &str) -> (b: bool)
    ensures
        b == slash_free(s@),
{
    let chars = chars_of(s);
    let mut i: usize = 0;
    while i < chars.len()
        invariant
            chars@ == s@,
            i <= chars.len(),
            forall|j: int| 0 <= j < i ==> s@[j] != '/',
        decreases chars.len() - i,
    {
        if chars[i] == '/' {
            return false;
        }
        i += 1;
    }
    true
}

fn invalid_location() -> (e: ErrorModel)
    ensures
        e@ == error_of(ErrorKind::BadRequest, "Location is not valid."@, "InvalidLocation"@),
{
    ErrorModel::bad_request("Location is not valid.", "InvalidLocation")
}

impl Location {
    /// The validity every location has.
    pub open spec fn wf(&self) -> bool {
        valid_location(self@)
    }

    /// Reads a location from its text.
    pub fn from_str(s: &str) -> (r: Result<Location, ErrorModel>)
        ensures
            r is Ok <==> parse_location(s@) is Some,
            r matches Ok(l) ==> l.wf() && l@ == parse_location(s@)->0,
            r matches Err(e) ==> e@ == error_of(
                ErrorKind::BadRequest,
                "Location is not valid."@,
                "InvalidLocation"@,
            ),
    {
        let chars = chars_of(s);
        let len = chars.len();
        let mut n: usize = 0;
        while n < len && is_scheme_char_exec(chars[n])
            invariant
                chars@ == s@,
                len == chars.len(),
                n <= len,
                forall|j: int| 0 <= j < n ==> is_scheme_char(#[trigger] s@[j]),
            decreases len - n,
        {
            n += 1;
        }
        proof {
            lemma_scheme_len(s@, n as int);
        }
        if !is_scheme_exec(&chars, n) || len - n < 3 || chars[n] != ':' || chars[n + 1] != '/'
            || chars[n + 2] != '/' {
            proof {
                if len - n >= 3 {
                    let sep = s@.subrange(n as int, n + 3);
                    assert(sep[0] == s@[n as int]);
                    assert(sep[1] == s@[n + 1]);
                    assert(sep[2] == s@[n + 2]);
                }
            }
            return Err(invalid_location());
        }
        assert(s@.subrange(n as int, n + 3) =~= scheme_separator());
        let ghost rest = s@.skip(n + 3);
        let mut a: usize = n + 3;
        while a < len && chars[a] != '/'
            invariant
                chars@ == s@,
                len == chars.len(),
                n + 3 <= a <= len,
                forall|j: int| n + 3 <= j < a ==> s@[j] != '/',
            decreases len - a,
        {
            a += 1;
        }
        proof {
            lemma_first_slash(rest, a - (n + 3));
            assert(rest.skip(a - (n + 3)) =~= s@.skip(a as int));
            assert(rest.take(a - (n + 3)) =~= s@.subrange(n + 3, a as int));
            lemma_pieces_are_segments(s@.skip(a as int));
        }
        let scheme = s.substring_char(0, n).to_owned();
        let authority = s.substring_char(n + 3, a).to_owned();
        let path = s.substring_char(a, len);
        let segments = split_path(path);
        let trailing_slash = len > a && chars[len - 1] == '/';
        Ok(Location { scheme, authority, segments, trailing_slash })
    }

    /// The location with the given scheme and authority and the segments of
    /// `path`, without a trailing slash.
    pub fn from_parts(scheme: &str, authority: &str, path: &str) -> (r: Result<Location, ErrorModel>)
        ensures
            r is Ok <==> is_scheme(scheme@) && slash_free(authority@),
            r matches Ok(l) ==> l.wf() && l@ == (LocationView {
                scheme: scheme@,
                authority: authority@,
                segments: pieces(path@),
                trailing_slash: false,
            }),
            r matches Err(e) ==> e@ == error_of(
                ErrorKind::BadRequest,
                "Location is not valid."@,
                "InvalidLocation"@,
            ),
    {
        let scheme_chars = chars_of(scheme);
        assert(scheme_chars@.take(scheme_chars.len() as int) =~= scheme@);
        if !is_scheme_exec(&scheme_chars, scheme_chars.len()) {
            return Err(invalid_location());
        }
        let authority_chars = chars_of(authority);
        let mut k: usize = 0;
        while k < authority_chars.len()
            invariant
                authority_chars@ == authority@,
                k <= authority_chars.len(),
                forall|j: int| 0 <= j < k ==> authority@[j] != '/',
            decreases authority_chars.len() - k,
        {
            if authority_chars[k] == '/' {
                return Err(invalid_location());
            }
            k += 1;
        }
        proof {
            lemma_pieces_are_segments(path@);
        }
        Ok(
            Location {
                scheme: scheme.to_owned(),
                authority: authority.to_owned(),
                segments: split_path(path),
                trailing_slash: false,
            },
        )
    }

    /// The text of the location.
    pub fn to_string(&self) -> (text: String)
        ensures
            text@ == location_text(self@),
    {
        let mut text = self.scheme.clone();
        proof {
            reveal_strlit("://");
            reveal_strlit("/");
        }
        text.append("://");
        assert("://"@ =~= scheme_separator());
        text.append(self.authority.as_str());
        let ghost head = self.scheme@ + scheme_separator() + self.authority@;
        let ghost segments = texts(self.segments@);
        assert(segments.take(0) =~= Seq::<Seq<char>>::empty());
        assert(text@ =~= head + join_segments(segments.take(0)));
        let mut i: usize = 0;
        while i < self.segments.len()
            invariant
                i <= self.segments.len(),
                segments == texts(self.segments@),
                "/"@ == seq!['/'],
                text@ == head + join_segments(segments.take(i as int)),
            decreases self.segments.len() - i,
        {
            text.append("/");
            text.append(self.segments[i].as_str());
            proof {
                let next = segments.take(i + 1);
                assert(next.drop_last() =~= segments.take(i as int));
                assert(next.last() == self.segments[i as int]@);
                assert(text@ =~= head + join_segments(next));
            }
            i += 1;
        }
        assert(segments.take(i as int) =~= segments);
        if self.trailing_slash {
            text.append("/");
        }
        assert(text@ =~= location_text(self@));
        text
    }

    /// The scheme.
    pub fn scheme(&self) -> (scheme: &String)
        ensures
            scheme@ == self@.scheme,
    {
        &self.scheme
    }

    /// The authority: the bucket or container.
    pub fn authority(&self) -> (authority: &String)
        ensures
            authority@ == self@.authority,
    {
        &self.authority
    }

    /// The path segments.
    pub fn segments(&self) -> (segments: &Vec<String>)
        ensures
            texts(segments@) == self@.segments,
    {
        &self.segments
    }

    /// Whether the text of the location ends with a slash after its path.
    pub fn has_trailing_slash(&self) -> (b: bool)
        ensures
            b == self@.trailing_slash,
    {
        self.trailing_slash
    }

    /// A copy of the location.
    pub fn duplicate(&self) -> (l: Location)
        ensures
            l@ == self@,
    {
        let mut segments: Vec<String> = Vec::with_capacity(self.segments.len());
        let mut i: usize = 0;
        while i < self.segments.len()
            invariant
                i <= self.segments.len(),
                segments@ == self.segments@.take(i as int),
            decreases self.segments.len() - i,
        {
            segments.push(self.segments[i].clone());
            i += 1;
            assert(segments@ =~= self.segments@.take(i as int));
        }
        assert(self.segments@.take(i as int) =~= self.segments@);
        Location {
            scheme: self.scheme.clone(),
            authority: self.authority.clone(),
            segments,
            trailing_slash: self.trailing_slash,
        }
    }

    /// Lets the text end with a slash.
    pub fn with_trailing_slash(&mut self)
        ensures
            final(self)@ == (LocationView { trailing_slash: true, ..old(self)@ }),
    {
        self.trailing_slash = true;
    }

    /// Lets the text end without a slash.
    pub fn without_trailing_slash(&mut self)
        ensures
            final(self)@ == (LocationView { trailing_slash: false, ..old(self)@ }),
    {
        self.trailing_slash = false;
    }

    /// Appends the segments of `component`. A component without a segment
    /// (empty, or slashes only) leaves the location as it is; otherwise the
    /// text no longer ends with a slash.
    pub fn push(&mut self, component: &str)
        ensures
            final(self)@ == (LocationView {
                segments: old(self)@.segments + pieces(component@),
                trailing_slash: old(self)@.trailing_slash && pieces(component@).len() == 0,
                ..old(self)@
            }),
            old(self).wf() ==> final(self).wf(),
    {
        let mut added = split_path(component);
        proof {
            lemma_pieces_are_segments(component@);
            assert(texts(self.segments@ + added@) =~= texts(self.segments@) + texts(added@));
        }
        if added.len() > 0 {
            self.trailing_slash = false;
        }
        self.segments.append(&mut added);
    }

    /// Whether this location is `base` or lies under it. Segments are
    /// compared whole, so `s3://b/xy` is not under `s3://b/x`.
    pub fn is_sublocation_of(&self, base: &Location) -> (b: bool)
        ensures
            b == is_sublocation(self@, base@),
    {
        if self.scheme != base.scheme || self.authority != base.authority {
            return false;
        }
        if base.segments.len() > self.segments.len() {
            return false;
        }
        let ghost mine = texts(self.segments@);
        let ghost theirs = texts(base.segments@);
        let mut i: usize = 0;
        while i < base.segments.len()
            invariant
                i <= base.segments.len() <= self.segments.len(),
                mine == texts(self.segments@),
                theirs == texts(base.segments@),
                forall|j: int| 0 <= j < i ==> mine[j] == theirs[j],
            decreases base.segments.len() - i,
        {
            if self.segments[i] != base.segments[i] {
                assert(mine[i as int] != theirs[i as int]);
                assert(mine.subrange(0, theirs.len() as int)[i as int] == mine[i as int]);
                return false;
            }
            i += 1;
        }
        assert(theirs =~= mine.subrange(0, theirs.len() as int));
        true
    }

    /// Whether both locations name the same place; a trailing slash makes no
    /// difference.
    pub fn is_same_place(&self, other: &Location) -> (b: bool)
        ensures
            b == same_place(self@, other@),
    {
        let b = self.segments.len() == other.segments.len() && self.is_sublocation_of(other);
        proof {
            let mine = texts(self.segments@);
            let theirs = texts(other.segments@);
            if mine.len() == theirs.len() {
                assert(mine.subrange(0, theirs.len() as int) =~= mine);
            }
        }
        b
    }

    /// The prefix that credentials for this location are scoped to: the
    /// text of the location with a trailing slash, so that the credentials
    /// reach what lies under the location and nothing beside it.
    pub fn credential_scope(&self) -> (scope: String)
        ensures
            scope@ == location_text(LocationView { trailing_slash: true, ..self@ }),
    {
        let mut scoped = self.duplicate();
        scoped.with_trailing_slash();
        scoped.to_string()
    }

    /// Whether both locations hold the same values, the trailing slash
    /// included.
    pub fn equals(&self, other: &Location) -> (b: bool)
        ensures
            b == (self@ == other@),
    {
        self.trailing_slash == other.trailing_slash && self.is_same_place(other)
    }

    /// Whether the location is valid. Every location that this module hands
    /// out is.
    pub fn is_valid(&self) -> (b: bool)
        ensures
            b == self.wf(),
    {
        let scheme = chars_of(self.scheme.as_str());
        assert(scheme@.take(scheme.len() as int) =~= self.scheme@);
        if !is_scheme_exec(&scheme, scheme.len()) {
            return false;
        }
        if !is_slash_free(self.authority.as_str()) {
            return false;
        }
        let mut k: usize = 0;
        while k < self.segments.len()
            invariant
                k <= self.segments.len(),
                is_scheme(self.scheme@),
                slash_free(self.authority@),
                forall|j: int| 0 <= j < k ==> is_segment(#[trigger] texts(self.segments@)[j]),
            decreases self.segments.len() - k,
        {
            let segment = self.segments[k].as_str();
            if segment.unicode_len() == 0 || !is_slash_free(segment) {
                assert(texts(self.segments@)[k as int] == segment@);
                assert(!is_segment(self@.segments[k as int]));
                return false;
            }
            k += 1;
        }
        true
    }

    /// The text of the location without `prefix`, where the text starts with
    /// `prefix`; the whole text where it does not.
    pub fn lstrip(&self, prefix: &str) -> (rest: String)
        ensures
            rest@ == stripped(location_text(self@), prefix@),
    {
        let text = self.to_string();
        if starts_with(text.as_str(), prefix) {
            let from = prefix.unicode_len();
            let to = text.as_str().unicode_len();
            text.as_str().substring_char(from, to).to_owned()
        } else {
            text
        }
    }
}


/// The segments of two paths with a `/` between them are the segments of
/// the first followed by those of the second.
pub proof fn lemma_pieces_concat(s: Seq<char>, t: Seq<char>)
    ensures
        pieces(s + seq!['/'] + t) == pieces(s) + pieces(t),
    decreases s.len(),
{
    let full = s + seq!['/'] + t;
    if s.len() == 0 {
        assert(full.drop_first() =~= t);
        assert(pieces(s) + pieces(t) =~= pieces(t));
    } else if s[0] == '/' {
        assert(full.drop_first() =~= s.drop_first() + seq!['/'] + t);
        lemma_pieces_concat(s.drop_first(), t);
    } else {
        let n = first_slash(s);
        lemma_first_slash_bounds(s);
        assert forall|i: int| 0 <= i < n implies full[i] != '/' by {
            assert(full[i] == s[i]);
        }
        assert(full[n] == '/') by {
            if n < s.len() {
                assert(full[n] == s[n]);
            }
        }
        lemma_first_slash(full, n);
        assert(full.take(n) =~= s.take(n));
        assert(full.skip(n) =~= s.skip(n) + seq!['/'] + t);
        lemma_pieces_concat(s.skip(n), t);
        assert(pieces(s) == seq![s.take(n)] + pieces(s.skip(n)));
        assert(pieces(full) == seq![full.take(n)] + pieces(full.skip(n)));
        assert(pieces(full) =~= pieces(s) + pieces(t));
    }
}

/// The path of a list of segments has those segments, and it begins with a
/// `/` unless the list is empty.
pub proof fn lemma_pieces_of_join(segments: Seq<Seq<char>>)
    requires
        forall|k: int| 0 <= k < segments.len() ==> is_segment(#[trigger] segments[k]),
    ensures
        pieces(join_segments(segments)) == segments,
        segments.len() > 0 ==> join_segments(segments).len() > 0 && join_segments(segments)[0]
            == '/' && join_segments(segments).last() != '/',
        segments.len() == 0 ==> join_segments(segments).len() == 0,
    decreases segments.len(),
{
    if segments.len() > 0 {
        let init = segments.drop_last();
        let last = segments.last();
        assert forall|k: int| 0 <= k < init.len() implies is_segment(#[trigger] init[k]) by {
            assert(init[k] == segments[k]);
        }
        lemma_pieces_of_join(init);
        lemma_pieces_concat(join_segments(init), last);
        lemma_pieces_of_segment(last);
        assert(pieces(join_segments(segments)) =~= segments);
        let joined = join_segments(segments);
        assert(joined.last() == last[last.len() - 1]);
        if init.len() > 0 {
            assert(joined[0] == join_segments(init)[0]);
        }
    }
}

/// The text of a valid location is read as that location.
pub proof fn lemma_text_round_trip(v: LocationView)
    requires
        valid_location(v),
    ensures
        parse_location(location_text(v)) == Some(v),
{
    let text = location_text(v);
    let n = v.scheme.len() as int;
    let path = join_segments(v.segments) + (if v.trailing_slash {
        seq!['/']
    } else {
        Seq::empty()
    });
    lemma_pieces_of_join(v.segments);
    lemma_scheme_chars(v.scheme);
    assert forall|i: int| 0 <= i < n implies is_scheme_char(#[trigger] text[i]) by {
        assert(text[i] == v.scheme[i]);
    }
    assert(text[n] == ':');
    lemma_scheme_len(text, n);
    assert(text.subrange(n, n + 3) =~= scheme_separator());
    assert(text.take(n) =~= v.scheme);
    let rest = text.skip(n + 3);
    assert(rest =~= v.authority + path);
    let a = v.authority.len() as int;
    assert forall|i: int| 0 <= i < a implies rest[i] != '/' by {
        assert(rest[i] == v.authority[i]);
    }
    if a < rest.len() {
        assert(rest[a] == path[0]);
    }
    lemma_first_slash(rest, a);
    assert(rest.take(a) =~= v.authority);
    assert(rest.skip(a) =~= path);
    if v.trailing_slash {
        lemma_pieces_concat(join_segments(v.segments), Seq::empty());
        assert(join_segments(v.segments) + seq!['/'] + Seq::<char>::empty() =~= path);
        assert(pieces(join_segments(v.segments)) + pieces(Seq::<char>::empty()) =~= v.segments);
    } else {
        assert(path =~= join_segments(v.segments));
    }
    assert(pieces(path) == v.segments);
}

} // verus!
