//! HLS attribute lists, numbers, byte ranges and URI resolution.

use vstd::prelude::*;

use vstd::string::StringExecFns;

use crate::hls::error::{HlsError, HlsErrorView};
use crate::hls::model::{
    ByteRange, Key, MediaRendition, PreloadHint, PreloadHintType, RenditionType, opt_str,
};
use crate::hls::text::{
    find_char, find_from, parse_unsigned, str_chars, substr, trim, trim_bounds, unsigned_value,
};

verus! {

/// The value last given to `key` in `entries`.
pub open spec fn lookup(entries: Seq<(Seq<char>, Seq<char>)>, key: Seq<char>) -> Option<Seq<char>>
    decreases entries.len(),
{
    if entries.len() == 0 {
        None
    } else if entries.last().0 == key {
        Some(entries.last().1)
    } else {
        lookup(entries.drop_last(), key)
    }
}

/// An attribute list: names with their values, a later value for a name
/// replacing an earlier one.
#[derive(Debug, Clone)]
pub struct AttrMap {
    entries: Vec<(String, String)>,
}

impl AttrMap {
    /// The entries in the order they were inserted.
    pub closed spec fn entries(self) -> Seq<(Seq<char>, Seq<char>)> {
        self.entries@.map_values(|e: (String, String)| (e.0@, e.1@))
    }

    /// The value of `key`.
    pub open spec fn value_of(self, key: Seq<char>) -> Option<Seq<char>> {
        lookup(self.entries(), key)
    }

    /// An empty attribute list.
    pub fn new() -> (m: Self)
        ensures
            m.entries() == Seq::<(Seq<char>, Seq<char>)>::empty(),
    {
        let m = AttrMap { entries: Vec::new() };
        assert(m.entries() =~= Seq::<(Seq<char>, Seq<char>)>::empty());
        m
    }

    /// Set `key` to `value`.
    pub fn insert(&mut self, key: String, value: String)
        ensures
            final(self).entries() == old(self).entries().push((key@, value@)),
    {
        let ghost k = key@;
        let ghost v = value@;
        self.entries.push((key, value));
        assert(self.entries() =~= old(self).entries().push((k, v)));
    }

    /// The value of `key`.
    pub fn get(&self, key: &str) -> (r: Option<&String>)
        ensures
            match self.value_of(key@) {
                Some(v) => r matches Some(s) && s@ == v,
                None => r is None,
            },
    {
        let k = String::from_str(key);
        let mut i = self.entries.len();
        assert(self.entries().subrange(0, i as int) =~= self.entries());
        while i > 0
            invariant
                i <= self.entries@.len(),
                k@ == key@,
                self.value_of(key@) == lookup(self.entries().subrange(0, i as int), key@),
            decreases i,
        {
            assert(self.entries().subrange(0, i as int).drop_last() =~= self.entries().subrange(
                0,
                i - 1,
            ));
            assert(self.entries()[i - 1] == (self.entries@[i - 1].0@, self.entries@[i - 1].1@));
            if self.entries[i - 1].0 == k {
                return Some(&self.entries[i - 1].1);
            }
            i -= 1;
        }
        None
    }
}

/// The first position at or after `i` that is not a blank, tab or comma.
pub open spec fn skip_sep(c: Seq<char>, i: int) -> int
    decreases c.len() - i,
{
    if 0 <= i < c.len() && (c[i] == ' ' || c[i] == '\t' || c[i] == ',') {
        skip_sep(c, i + 1)
    } else {
        i
    }
}

pub proof fn lemma_skip_sep_ge(c: Seq<char>, i: int)
    ensures
        skip_sep(c, i) >= i,
        0 <= i <= c.len() ==> skip_sep(c, i) <= c.len(),
    decreases c.len() - i,
{
    if 0 <= i < c.len() && (c[i] == ' ' || c[i] == '\t' || c[i] == ',') {
        lemma_skip_sep_ge(c, i + 1);
    }
}

pub proof fn lemma_find_from_bounds(c: Seq<char>, i: int, ch: char)
    ensures
        i <= c.len() ==> i <= find_from(c, i, ch) <= c.len(),
        i > c.len() ==> find_from(c, i, ch) == c.len(),
    decreases c.len() - i,
{
    if i < c.len() && c[i] != ch {
        lemma_find_from_bounds(c, i + 1, ch);
    }
}

/// Why an attribute list does not parse.
pub enum AttrError {
    MissingEquals,
    UnterminatedQuote,
}

/// The error an attribute-list failure is reported as.
pub open spec fn attr_error_view(e: AttrError) -> HlsErrorView {
    match e {
        AttrError::MissingEquals => HlsErrorView::Malformed {
            line: 0,
            context: "attribute missing '='"@,
        },
        AttrError::UnterminatedQuote => HlsErrorView::Malformed {
            line: 0,
            context: "unterminated quoted attribute"@,
        },
    }
}

/// `r` with `p` put in front of its entries.
pub open spec fn prepend_entries(
    p: Seq<(Seq<char>, Seq<char>)>,
    r: Result<Seq<(Seq<char>, Seq<char>)>, AttrError>,
) -> Result<Seq<(Seq<char>, Seq<char>)>, AttrError> {
    match r {
        Ok(x) => Ok(p + x),
        Err(e) => Err(e),
    }
}

/// The entries of the attribute list `c` from position `i`: separators are
/// skipped, a name runs to `=`, a value is either quoted (to the next `"`) or
/// runs to the next comma and is trimmed; a name at the very end gets an
/// empty value.
pub open spec fn attr_entries(c: Seq<char>, i: int) -> Result<Seq<(Seq<char>, Seq<char>)>, AttrError>
    decreases c.len() - i,
{
    let j = skip_sep(c, i);
    if i < 0 || j >= c.len() {
        Ok(Seq::empty())
    } else {
        let e = find_from(c, j, '=');
        if e >= c.len() {
            Err(AttrError::MissingEquals)
        } else {
            let key = c.subrange(j, e);
            let v0 = e + 1;
            if v0 >= c.len() {
                Ok(seq![(key, Seq::<char>::empty())])
            } else if c[v0] == '"' {
                let q = find_from(c, v0 + 1, '"');
                if q >= c.len() {
                    Err(AttrError::UnterminatedQuote)
                } else {
                    proof {
                        lemma_skip_sep_ge(c, i);
                        lemma_find_from_bounds(c, j, '=');
                        lemma_find_from_bounds(c, v0 + 1, '"');
                    }
                    prepend_entries(seq![(key, c.subrange(v0 + 1, q))], attr_entries(c, q + 1))
                }
            } else {
                let k = find_from(c, v0, ',');
                proof {
                    lemma_skip_sep_ge(c, i);
                    lemma_find_from_bounds(c, j, '=');
                    lemma_find_from_bounds(c, v0, ',');
                }
                prepend_entries(seq![(key, trim(c.subrange(v0, k)))], attr_entries(c, k))
            }
        }
    }
}

proof fn lemma_prepend_assoc(
    a: Seq<(Seq<char>, Seq<char>)>,
    b: Seq<(Seq<char>, Seq<char>)>,
    r: Result<Seq<(Seq<char>, Seq<char>)>, AttrError>,
)
    ensures
        prepend_entries(a, prepend_entries(b, r)) == prepend_entries(a + b, r),
{
    match r {
        Ok(x) => {
            assert(a + (b + x) =~= (a + b) + x);
        },
        Err(e) => {},
    }
}

/// Parse an attribute list such as `BANDWIDTH=1280000,CODECS="avc1,mp4a"`.
pub fn parse_attributes(input: &str) -> (r: Result<AttrMap, HlsError>)
    ensures
        match attr_entries(input@, 0) {
            Ok(es) => r matches Ok(m) && m.entries() == es,
            Err(k) => r matches Err(e) && e@ == attr_error_view(k),
        },
{
    let c = str_chars(input);
    let mut map = AttrMap::new();
    let mut i: usize = 0;
    assert(Seq::<(Seq<char>, Seq<char>)>::empty() + Seq::<(Seq<char>, Seq<char>)>::empty()
        =~= Seq::<(Seq<char>, Seq<char>)>::empty());
    assert(attr_entries(c@, 0) == prepend_entries(map.entries(), attr_entries(c@, 0))) by {
        match attr_entries(c@, 0) {
            Ok(x) => {
                assert(Seq::<(Seq<char>, Seq<char>)>::empty() + x =~= x);
            },
            Err(e) => {},
        }
    }
    loop
        invariant
            c@ == input@,
            i <= c@.len(),
            attr_entries(c@, 0) == prepend_entries(map.entries(), attr_entries(c@, i as int)),
        ensures
            attr_entries(c@, 0) == Ok::<Seq<(Seq<char>, Seq<char>)>, AttrError>(map.entries()),
        decreases c@.len() - i,
    {
        let ghost i0 = i as int;
        while i < c.len() && (c[i] == ' ' || c[i] == '\t' || c[i] == ',')
            invariant
                i0 <= i <= c@.len(),
                skip_sep(c@, i0) == skip_sep(c@, i as int),
            decreases c@.len() - i,
        {
            i += 1;
        }
        if i >= c.len() {
            proof {
                assert(skip_sep(c@, i as int) == i);
                assert(attr_entries(c@, i0) == Ok::<Seq<(Seq<char>, Seq<char>)>, AttrError>(
                    Seq::empty(),
                ));
                assert(map.entries() + Seq::<(Seq<char>, Seq<char>)>::empty() =~= map.entries());
            }
            break;
        }
        assert(skip_sep(c@, i as int) == i);
        let key_start = i;
        i = find_char(&c, i, '=');
        if i >= c.len() {
            return Err(HlsError::malformed(0, "attribute missing '='"));
        }
        let key = substr(input, key_start, i);
        i += 1;
        if i >= c.len() {
            let ghost before = map.entries();
            let empty = String::new();
            let ghost ev = empty@;
            map.insert(key, empty);
            proof {
                assert(ev =~= Seq::<char>::empty());
                assert(attr_entries(c@, i0) == Ok::<Seq<(Seq<char>, Seq<char>)>, AttrError>(
                    seq![(c@.subrange(key_start as int, i - 1), Seq::<char>::empty())],
                ));
                assert(before + seq![(c@.subrange(key_start as int, i - 1), Seq::<char>::empty())]
                    =~= map.entries());
            }
            break;
        }
        let ghost before = map.entries();
        if c[i] == '"' {
            i += 1;
            let value_start = i;
            i = find_char(&c, i, '"');
            if i >= c.len() {
                return Err(HlsError::malformed(0, "unterminated quoted attribute"));
            }
            let value = substr(input, value_start, i);
            let ghost entry = (key@, value@);
            map.insert(key, value);
            i += 1;
            proof {
                lemma_prepend_assoc(before, seq![entry], attr_entries(c@, i as int));
                assert(before + seq![entry] =~= map.entries());
            }
        } else {
            let value_start = i;
            i = find_char(&c, i, ',');
            let (t0, t1) = trim_bounds(&c, value_start, i);
            let value = substr(input, t0, t1);
            let ghost entry = (key@, value@);
            map.insert(key, value);
            proof {
                lemma_prepend_assoc(before, seq![entry], attr_entries(c@, i as int));
                assert(before + seq![entry] =~= map.entries());
            }
        }
    }
    Ok(map)
}

/// The value of `key`, or `MissingTag` naming it.
pub fn clone_attr(attrs: &AttrMap, key: &str) -> (r: Result<String, HlsError>)
    ensures
        match attrs.value_of(key@) {
            Some(v) => r matches Ok(s) && s@ == v,
            None => r matches Err(e) && e@ == (HlsErrorView::MissingTag { tag: key@ }),
        },
{
    match attrs.get(key) {
        Some(v) => Ok(v.clone()),
        None => Err(HlsError::missing_tag(key)),
    }
}

/// The number `s` spells, at most `max`.
pub(crate) fn number_of(s: &str, max: u64) -> (r: Option<u64>)
    ensures
        match unsigned_value(s@, max as int) {
            Some(v) => r == Some(v as u64) && 0 <= v <= max,
            None => r is None,
        },
{
    let c = str_chars(s);
    assert(c@.subrange(0, c@.len() as int) =~= c@);
    parse_unsigned(&c, 0, c.len(), max)
}

/// What reading attribute `key` as a number of at most `max` gives.
pub open spec fn number_attr(attrs: AttrMap, key: Seq<char>, max: int) -> Result<int, HlsErrorView> {
    match attrs.value_of(key) {
        None => Err(HlsErrorView::MissingTag { tag: key }),
        Some(v) => match unsigned_value(v, max) {
            Some(n) => Ok(n),
            None => Err(HlsErrorView::InvalidAttribute { tag: ""@, key, value: v }),
        },
    }
}

/// What reading the optional attribute `key` as a number of at most `max` gives.
pub open spec fn optional_number_attr(attrs: AttrMap, key: Seq<char>, max: int) -> Result<
    Option<int>,
    HlsErrorView,
> {
    match attrs.value_of(key) {
        None => Ok(None),
        Some(v) => match unsigned_value(v, max) {
            Some(n) => Ok(Some(n)),
            None => Err(HlsErrorView::InvalidAttribute { tag: ""@, key, value: v }),
        },
    }
}

/// Attribute `key` as a `u32`.
pub fn parse_u32_attr(attrs: &AttrMap, key: &str) -> (r: Result<u32, HlsError>)
    ensures
        match number_attr(*attrs, key@, u32::MAX as int) {
            Ok(n) => r == Ok::<u32, HlsError>(n as u32),
            Err(ev) => r matches Err(e) && e@ == ev,
        },
{
    let v = clone_attr(attrs, key)?;
    match number_of(v.as_str(), u32::MAX as u64) {
        Some(n) => Ok(n as u32),
        None => Err(HlsError::invalid_attr("", key, v.as_str())),
    }
}

/// The optional attribute `key` as a `u32`.
pub fn parse_optional_u32(attrs: &AttrMap, key: &str) -> (r: Result<Option<u32>, HlsError>)
    ensures
        match optional_number_attr(*attrs, key@, u32::MAX as int) {
            Ok(Some(n)) => r == Ok::<Option<u32>, HlsError>(Some(n as u32)),
            Ok(None) => r == Ok::<Option<u32>, HlsError>(None),
            Err(ev) => r matches Err(e) && e@ == ev,
        },
{
    match attrs.get(key) {
        Some(v) => match number_of(v.as_str(), u32::MAX as u64) {
            Some(n) => Ok(Some(n as u32)),
            None => Err(HlsError::invalid_attr("", key, v.as_str())),
        },
        None => Ok(None),
    }
}

/// Attribute `key` as a `u64`.
pub fn parse_u64_attr(attrs: &AttrMap, key: &str) -> (r: Result<u64, HlsError>)
    ensures
        match number_attr(*attrs, key@, u64::MAX as int) {
            Ok(n) => r == Ok::<u64, HlsError>(n as u64),
            Err(ev) => r matches Err(e) && e@ == ev,
        },
{
    let v = clone_attr(attrs, key)?;
    match number_of(v.as_str(), u64::MAX) {
        Some(n) => Ok(n),
        None => Err(HlsError::invalid_attr("", key, v.as_str())),
    }
}

/// The optional attribute `key` as a `u64`.
pub fn parse_optional_u64(attrs: &AttrMap, key: &str) -> (r: Result<Option<u64>, HlsError>)
    ensures
        match optional_number_attr(*attrs, key@, u64::MAX as int) {
            Ok(Some(n)) => r == Ok::<Option<u64>, HlsError>(Some(n as u64)),
            Ok(None) => r == Ok::<Option<u64>, HlsError>(None),
            Err(ev) => r matches Err(e) && e@ == ev,
        },
{
    match attrs.get(key) {
        Some(v) => match number_of(v.as_str(), u64::MAX) {
            Some(n) => Ok(Some(n)),
            None => Err(HlsError::invalid_attr("", key, v.as_str())),
        },
        None => Ok(None),
    }
}

/// `s` as a `u64`.
pub fn parse_u64_raw(s: &str) -> (r: Result<u64, HlsError>)
    ensures
        match unsigned_value(s@, u64::MAX as int) {
            Some(n) => r == Ok::<u64, HlsError>(n as u64),
            None => r matches Err(e) && e@ == (HlsErrorView::InvalidAttribute {
                tag: ""@,
                key: ""@,
                value: s@,
            }),
        },
{
    match number_of(s, u64::MAX) {
        Some(n) => Ok(n),
        None => Err(HlsError::invalid_attr("", "", s)),
    }
}

/// What parsing a byte range `<length>[@<offset>]` gives; a third `@` part
/// is ignored, and both numbers are trimmed.
pub open spec fn byte_range_spec(c: Seq<char>) -> Result<ByteRange, HlsErrorView> {
    let a = find_from(c, 0, '@');
    let bad = HlsErrorView::InvalidAttribute { tag: ""@, key: "BYTERANGE"@, value: c };
    match unsigned_value(trim(c.subrange(0, a)), u64::MAX as int) {
        None => Err(bad),
        Some(length) => if a >= c.len() {
            Ok(ByteRange { length: length as u64, offset: None })
        } else {
            let b = find_from(c, a + 1, '@');
            match unsigned_value(trim(c.subrange(a + 1, b)), u64::MAX as int) {
                None => Err(bad),
                Some(o) => Ok(ByteRange { length: length as u64, offset: Some(o as u64) }),
            }
        },
    }
}

/// Parse a byte range `<length>[@<offset>]`.
pub fn parse_byte_range_raw(s: &str) -> (r: Result<ByteRange, HlsError>)
    ensures
        match byte_range_spec(s@) {
            Ok(b) => r == Ok::<ByteRange, HlsError>(b),
            Err(ev) => r matches Err(e) && e@ == ev,
        },
{
    let c = str_chars(s);
    let a = find_char(&c, 0, '@');
    let (t0, t1) = trim_bounds(&c, 0, a);
    let length = match parse_unsigned(&c, t0, t1, u64::MAX) {
        Some(v) => v,
        None => return Err(HlsError::invalid_attr("", "BYTERANGE", s)),
    };
    if a >= c.len() {
        return Ok(ByteRange { length, offset: None });
    }
    let b = find_char(&c, a + 1, '@');
    let (u0, u1) = trim_bounds(&c, a + 1, b);
    match parse_unsigned(&c, u0, u1, u64::MAX) {
        Some(o) => Ok(ByteRange { length, offset: Some(o) }),
        None => Err(HlsError::invalid_attr("", "BYTERANGE", s)),
    }
}

/// What parsing a resolution `<width>x<height>` gives (no trimming; a third
/// `x` part is ignored).
pub open spec fn resolution_spec(c: Seq<char>) -> Result<(u32, u32), HlsErrorView> {
    let x = find_from(c, 0, 'x');
    let bad = HlsErrorView::InvalidAttribute { tag: ""@, key: "RESOLUTION"@, value: c };
    match unsigned_value(c.subrange(0, x), u32::MAX as int) {
        None => Err(bad),
        Some(w) => if x >= c.len() {
            Err(bad)
        } else {
            let y = find_from(c, x + 1, 'x');
            match unsigned_value(c.subrange(x + 1, y), u32::MAX as int) {
                None => Err(bad),
                Some(h) => Ok((w as u32, h as u32)),
            }
        },
    }
}

/// Parse an optional resolution attribute value.
pub fn parse_resolution(value: Option<&String>) -> (r: Result<Option<(u32, u32)>, HlsError>)
    ensures
        value is None ==> r == Ok::<Option<(u32, u32)>, HlsError>(None),
        value matches Some(v) ==> match resolution_spec(v@) {
            Ok(wh) => r == Ok::<Option<(u32, u32)>, HlsError>(Some(wh)),
            Err(ev) => r matches Err(e) && e@ == ev,
        },
{
    match value {
        None => Ok(None),
        Some(v) => {
            let c = str_chars(v.as_str());
            let x = find_char(&c, 0, 'x');
            let w = match parse_unsigned(&c, 0, x, u32::MAX as u64) {
                Some(w) => w as u32,
                None => return Err(HlsError::invalid_attr("", "RESOLUTION", v.as_str())),
            };
            if x >= c.len() {
                return Err(HlsError::invalid_attr("", "RESOLUTION", v.as_str()));
            }
            let y = find_char(&c, x + 1, 'x');
            match parse_unsigned(&c, x + 1, y, u32::MAX as u64) {
                Some(h) => Ok(Some((w, h as u32))),
                None => Err(HlsError::invalid_attr("", "RESOLUTION", v.as_str())),
            }
        },
    }
}

/// The comma-separated pieces of `c` from `i`, each trimmed.
pub open spec fn comma_pieces(c: Seq<char>, i: int) -> Seq<Seq<char>>
    decreases c.len() - i,
{
    let k = find_from(c, i, ',');
    if i < 0 || i > c.len() {
        Seq::empty()
    } else if k < c.len() {
        proof {
            lemma_find_from_bounds(c, i, ',');
        }
        seq![trim(c.subrange(i, k))] + comma_pieces(c, k + 1)
    } else {
        seq![trim(c.subrange(i, c.len() as int))]
    }
}

/// The characters of each string.
pub open spec fn strings_view(v: Seq<String>) -> Seq<Seq<char>> {
    v.map_values(|s: String| s@)
}

/// Split `s` at commas and trim each piece.
pub fn split_commas(s: &str) -> (r: Vec<String>)
    ensures
        strings_view(r@) == comma_pieces(s@, 0),
{
    let c = str_chars(s);
    let mut out: Vec<String> = Vec::new();
    let mut i: usize = 0;
    loop
        invariant_except_break
            comma_pieces(c@, 0) == strings_view(out@) + comma_pieces(c@, i as int),
        invariant
            c@ == s@,
            i <= c@.len(),
        ensures
            comma_pieces(c@, 0) == strings_view(out@),
        decreases c@.len() - i,
    {
        let k = find_char(&c, i, ',');
        let (t0, t1) = trim_bounds(&c, i, k);
        let piece = substr(s, t0, t1);
        let ghost before = strings_view(out@);
        out.push(piece);
        assert(strings_view(out@) =~= before.push(trim(c@.subrange(i as int, k as int))));
        if k >= c.len() {
            assert(strings_view(out@) =~= before + comma_pieces(c@, i as int));
            assert(comma_pieces(c@, 0) == strings_view(out@));
            break;
        }
        assert(before + comma_pieces(c@, i as int) =~= strings_view(out@) + comma_pieces(
            c@,
            k + 1,
        ));
        i = k + 1;
    }
    out
}

/// `://` begins at `i`.
pub open spec fn sep_at(c: Seq<char>, i: int) -> bool {
    0 <= i && i + 3 <= c.len() && c[i] == ':' && c[i + 1] == '/' && c[i + 2] == '/'
}

/// The first position at or after `i` where `://` begins.
pub open spec fn first_sep(c: Seq<char>, i: int) -> Option<int>
    decreases c.len() - i,
{
    if i < 0 || i + 3 > c.len() {
        None
    } else if sep_at(c, i) {
        Some(i)
    } else {
        first_sep(c, i + 1)
    }
}

/// The last position before `n` holding `/`.
pub open spec fn last_slash(c: Seq<char>, n: int) -> Option<int>
    decreases n,
{
    if n <= 0 {
        None
    } else if c[n - 1] == '/' {
        Some(n - 1)
    } else {
        last_slash(c, n - 1)
    }
}

/// `uri` resolved against `base`: `None` for an empty `uri`.
///
/// A URI with a scheme stands as it is; a root path keeps the base's scheme
/// and authority; a relative path replaces what follows the base's last `/`,
/// or follows the authority after a `/` of its own.
pub open spec fn resolve_spec(base: Seq<char>, uri: Seq<char>) -> Option<Seq<char>> {
    if uri.len() == 0 {
        None
    } else if first_sep(uri, 0) is Some {
        Some(uri)
    } else if uri[0] == '/' {
        match first_sep(base, 0) {
            Some(e) => Some(base.subrange(0, find_from(base, e + 3, '/')) + uri),
            None => Some(uri),
        }
    } else {
        match last_slash(base, base.len() as int) {
            Some(s) => if s >= 2 && base[s - 2] == ':' && base[s - 1] == '/' {
                Some(base + seq!['/'] + uri)
            } else {
                Some(base.subrange(0, s + 1) + uri)
            },
            None => Some(base + uri),
        }
    }
}

/// The number of bytes `c` takes in UTF-8.
pub open spec fn utf8_width(c: char) -> int {
    if (c as u32) < 0x80 {
        1
    } else if (c as u32) < 0x800 {
        2
    } else if (c as u32) < 0x10000 {
        3
    } else {
        4
    }
}

/// Resolving a relative `uri` inspects the two bytes before the base's last
/// `/` as a string slice, which is not possible when the first of them lies
/// inside a multi-byte character.
pub open spec fn resolve_slices_badly(base: Seq<char>, uri: Seq<char>) -> bool {
    &&& uri.len() > 0
    &&& first_sep(uri, 0) is None
    &&& uri[0] != '/'
    &&& match last_slash(base, base.len() as int) {
        Some(s) => {
            let w1 = if s >= 1 {
                utf8_width(base[s - 1])
            } else {
                0
            };
            let w2 = if s >= 2 {
                utf8_width(base[s - 2])
            } else {
                0
            };
            w1 + w2 >= 2 && !(w1 == 2 || (w1 == 1 && w2 == 1))
        },
        None => false,
    }
}

pub(crate) fn find_sep(c: &Vec<char>) -> (r: Option<usize>)
    ensures
        match first_sep(c@, 0) {
            Some(e) => r == Some(e as usize) && 0 <= e && e + 3 <= c@.len(),
            None => r is None,
        },
{
    let mut i: usize = 0;
    while i < c.len() && c.len() - i >= 3
        invariant
            i <= c@.len(),
            first_sep(c@, 0) == first_sep(c@, i as int),
        decreases c@.len() - i,
    {
        if c[i] == ':' && c[i + 1] == '/' && c[i + 2] == '/' {
            return Some(i);
        }
        i += 1;
    }
    None
}

pub(crate) fn find_last_slash(c: &Vec<char>) -> (r: Option<usize>)
    ensures
        match last_slash(c@, c@.len() as int) {
            Some(s) => r == Some(s as usize) && 0 <= s < c@.len() && c@[s] == '/',
            None => r is None,
        },
{
    let mut n = c.len();
    while n > 0
        invariant
            n <= c@.len(),
            last_slash(c@, c@.len() as int) == last_slash(c@, n as int),
        decreases n,
    {
        if c[n - 1] == '/' {
            return Some(n - 1);
        }
        n -= 1;
    }
    None
}

/// Resolve `uri` against `base_uri`.
pub fn resolve_url(base_uri: &str, uri: &str) -> (r: Result<String, HlsError>)
    requires
        !resolve_slices_badly(base_uri@, uri@),
    ensures
        match resolve_spec(base_uri@, uri@) {
            Some(v) => r matches Ok(s) && s@ == v,
            None => r matches Err(e) && e@ == (HlsErrorView::Malformed {
                line: 0,
                context: "empty URI"@,
            }),
        },
{
    let u = str_chars(uri);
    let b = str_chars(base_uri);
    if u.len() == 0 {
        return Err(HlsError::malformed(0, "empty URI"));
    }
    if find_sep(&u).is_some() {
        return Ok(String::from_str(uri));
    }
    if u[0] == '/' {
        match find_sep(&b) {
            Some(e) => {
                let blen = b.len();
                assert(e + 3 <= blen);
                let ae = find_char(&b, e + 3, '/');
                let mut out = substr(base_uri, 0, ae);
                out.append(uri);
                return Ok(out);
            },
            None => return Ok(String::from_str(uri)),
        }
    }
    match find_last_slash(&b) {
        Some(s) => {
            if s >= 2 && b[s - 2] == ':' && b[s - 1] == '/' {
                let mut out = String::from_str(base_uri);
                let slash = "/";
                proof {
                    reveal_strlit("/");
                }
                out.append(slash);
                out.append(uri);
                Ok(out)
            } else {
                let blen = b.len();
                assert(s < blen);
                let mut out = substr(base_uri, 0, s + 1);
                out.append(uri);
                Ok(out)
            }
        },
        None => {
            let mut out = String::from_str(base_uri);
            out.append(uri);
            Ok(out)
        },
    }
}

/// The attribute value reads `YES`, ignoring ASCII case.
pub open spec fn is_yes(v: Seq<char>) -> bool {
    v.len() == 3 && (v[0] == 'Y' || v[0] == 'y') && (v[1] == 'E' || v[1] == 'e') && (v[2] == 'S'
        || v[2] == 's')
}

/// Attribute `key` is present and reads `YES`, ignoring ASCII case.
pub open spec fn flag_spec(attrs: AttrMap, key: Seq<char>) -> bool {
    match attrs.value_of(key) {
        Some(v) => is_yes(v),
        None => false,
    }
}

/// Attribute `key` is present and reads `YES`, ignoring ASCII case.
pub(crate) fn flag_attr(attrs: &AttrMap, key: &str) -> (b: bool)
    ensures
        b == flag_spec(*attrs, key@),
{
    match attrs.get(key) {
        Some(v) => {
            let c = str_chars(v.as_str());
            c.len() == 3 && (c[0] == 'Y' || c[0] == 'y') && (c[1] == 'E' || c[1] == 'e') && (c[2]
                == 'S' || c[2] == 's')
        },
        None => false,
    }
}

/// An optional attribute, copied.
pub(crate) fn opt_attr(attrs: &AttrMap, key: &str) -> (r: Option<String>)
    ensures
        opt_str(r) == attrs.value_of(key@),
{
    match attrs.get(key) {
        Some(v) => Some(v.clone()),
        None => None,
    }
}

/// The value of `key`, or `default` when it is absent.
pub open spec fn value_or(attrs: AttrMap, key: Seq<char>, default: Seq<char>) -> Seq<char> {
    match attrs.value_of(key) {
        Some(v) => v,
        None => default,
    }
}

/// Parse the attributes of a key tag.
pub fn parse_key(attrs: &AttrMap) -> (r: Result<Key, HlsError>)
    ensures
        match attrs.value_of("METHOD"@) {
            None => r matches Err(e) && e@ == (HlsErrorView::MissingTag { tag: "METHOD"@ }),
            Some(m) => r matches Ok(k) && k.method@ == m && opt_str(k.uri) == attrs.value_of(
                "URI"@,
            ) && opt_str(k.iv) == attrs.value_of("IV"@) && k.key_format@ == value_or(
                *attrs,
                "KEYFORMAT"@,
                "identity"@,
            ) && k.key_format_versions@ == value_or(*attrs, "KEYFORMATVERSIONS"@, "1"@),
        },
{
    let method = clone_attr(attrs, "METHOD")?;
    let key_format = match attrs.get("KEYFORMAT") {
        Some(v) => v.clone(),
        None => String::from_str("identity"),
    };
    let key_format_versions = match attrs.get("KEYFORMATVERSIONS") {
        Some(v) => v.clone(),
        None => String::from_str("1"),
    };
    Ok(
        Key {
            method,
            uri: opt_attr(attrs, "URI"),
            iv: opt_attr(attrs, "IV"),
            key_format,
            key_format_versions,
        },
    )
}

/// The rendition type an `#EXT-X-MEDIA` `TYPE` value names.
pub open spec fn rendition_type_spec(v: Seq<char>) -> Option<RenditionType> {
    if v == "AUDIO"@ {
        Some(RenditionType::Audio)
    } else if v == "VIDEO"@ {
        Some(RenditionType::Video)
    } else if v == "SUBTITLES"@ {
        Some(RenditionType::Subtitles)
    } else if v == "CLOSED-CAPTIONS"@ {
        Some(RenditionType::ClosedCaptions)
    } else {
        None
    }
}

/// `s` equals the literal `lit`.
pub(crate) fn str_is(s: &String, lit: &str) -> (b: bool)
    ensures
        b == (s@ == lit@),
{
    let l = String::from_str(lit);
    *s == l
}

/// Parse the attributes of an `#EXT-X-MEDIA` tag.
pub fn parse_media_rendition(attrs: &AttrMap) -> (r: Result<MediaRendition, HlsError>)
    ensures
        match attrs.value_of("TYPE"@) {
            None => r matches Err(e) && e@ == (HlsErrorView::MissingTag { tag: "TYPE"@ }),
            Some(t) => match rendition_type_spec(t) {
                None => r matches Err(e) && e@ == (HlsErrorView::InvalidAttribute {
                    tag: "#EXT-X-MEDIA"@,
                    key: "TYPE"@,
                    value: t,
                }),
                Some(kind) => match (attrs.value_of("GROUP-ID"@), attrs.value_of("NAME"@)) {
                    (None, _) => r matches Err(e) && e@ == (HlsErrorView::MissingTag {
                        tag: "GROUP-ID"@,
                    }),
                    (Some(_), None) => r matches Err(e) && e@ == (HlsErrorView::MissingTag {
                        tag: "NAME"@,
                    }),
                    (Some(g), Some(n)) => r matches Ok(m) && m.kind == kind && m.group_id@ == g
                        && m.name@ == n && opt_str(m.uri) == attrs.value_of("URI"@) && opt_str(
                        m.language,
                    ) == attrs.value_of("LANGUAGE"@) && opt_str(m.assoc_language)
                        == attrs.value_of("ASSOC-LANGUAGE"@) && m.default == flag_spec(
                        *attrs,
                        "DEFAULT"@,
                    ) && m.auto_select == flag_spec(*attrs, "AUTO-SELECT"@) && m.forced
                        == flag_spec(*attrs, "FORCED"@) && opt_str(m.in_stream_id)
                        == attrs.value_of("INSTREAM-ID"@) && strings_view(m.characteristics@)
                        == match attrs.value_of("CHARACTERISTICS"@) {
                        Some(c) => comma_pieces(c, 0),
                        None => Seq::empty(),
                    } && opt_str(m.channels) == attrs.value_of("CHANNELS"@),
                },
            },
        },
{
    let t = clone_attr(attrs, "TYPE")?;
    let kind = if str_is(&t, "AUDIO") {
        RenditionType::Audio
    } else if str_is(&t, "VIDEO") {
        RenditionType::Video
    } else if str_is(&t, "SUBTITLES") {
        RenditionType::Subtitles
    } else if str_is(&t, "CLOSED-CAPTIONS") {
        RenditionType::ClosedCaptions
    } else {
        return Err(HlsError::invalid_attr("#EXT-X-MEDIA", "TYPE", t.as_str()));
    };
    let uri = opt_attr(attrs, "URI");
    let group_id = clone_attr(attrs, "GROUP-ID")?;
    let language = opt_attr(attrs, "LANGUAGE");
    let assoc_language = opt_attr(attrs, "ASSOC-LANGUAGE");
    let name = clone_attr(attrs, "NAME")?;
    let characteristics = match attrs.get("CHARACTERISTICS") {
        Some(c) => split_commas(c.as_str()),
        None => {
            let v: Vec<String> = Vec::new();
            assert(strings_view(v@) =~= Seq::<Seq<char>>::empty());
            v
        },
    };
    Ok(
        MediaRendition {
            kind,
            uri,
            group_id,
            language,
            assoc_language,
            name,
            default: flag_attr(attrs, "DEFAULT"),
            auto_select: flag_attr(attrs, "AUTO-SELECT"),
            forced: flag_attr(attrs, "FORCED"),
            in_stream_id: opt_attr(attrs, "INSTREAM-ID"),
            characteristics,
            channels: opt_attr(attrs, "CHANNELS"),
        },
    )
}

/// Parse the attributes of an `#EXT-X-PRELOAD-HINT` tag.
pub fn parse_preload_hint(attrs: &AttrMap, base_uri: &str) -> (r: Result<PreloadHint, HlsError>)
    requires
        attrs.value_of("URI"@) matches Some(u) ==> !resolve_slices_badly(base_uri@, u),
    ensures
        match attrs.value_of("TYPE"@) {
            None => r matches Err(e) && e@ == (HlsErrorView::MissingTag { tag: "TYPE"@ }),
            Some(t) => if t != "PART"@ && t != "MAP"@ {
                r matches Err(e) && e@ == (HlsErrorView::InvalidAttribute {
                    tag: "#EXT-X-PRELOAD-HINT"@,
                    key: "TYPE"@,
                    value: t,
                })
            } else {
                match attrs.value_of("URI"@) {
                    None => r matches Err(e) && e@ == (HlsErrorView::MissingTag { tag: "URI"@ }),
                    Some(u) => match resolve_spec(base_uri@, u) {
                        None => r matches Err(e) && e@ == (HlsErrorView::Malformed {
                            line: 0,
                            context: "empty URI"@,
                        }),
                        Some(resolved) => match attrs.value_of("BYTERANGE"@) {
                            None => r matches Ok(h) && h.uri@ == resolved && h.byte_range is None
                                && (h.kind == PreloadHintType::Part <==> t == "PART"@),
                            Some(br) => match byte_range_spec(br) {
                                Ok(range) => r matches Ok(h) && h.uri@ == resolved && h.byte_range
                                    == Some(range) && (h.kind == PreloadHintType::Part <==> t
                                    == "PART"@),
                                Err(ev) => r matches Err(e) && e@ == ev,
                            },
                        },
                    },
                }
            },
        },
{
    let t = clone_attr(attrs, "TYPE")?;
    let kind = if str_is(&t, "PART") {
        PreloadHintType::Part
    } else if str_is(&t, "MAP") {
        PreloadHintType::InitMap
    } else {
        return Err(HlsError::invalid_attr("#EXT-X-PRELOAD-HINT", "TYPE", t.as_str()));
    };
    let u = clone_attr(attrs, "URI")?;
    let uri = resolve_url(base_uri, u.as_str())?;
    let byte_range = match attrs.get("BYTERANGE") {
        Some(s) => Some(parse_byte_range_raw(s.as_str())?),
        None => None,
    };
    Ok(PreloadHint { kind, uri, byte_range })
}

} // verus!
