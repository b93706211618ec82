//! The size of the screen as `xrandr --current` reports it, used to centre
//! the settings window; and the decoding of the window icon.
use crate::text::{char_is_whitespace, chars_of, is_whitespace, range_equals_str, string_from_range};
use vstd::prelude::*;

verus! {

// ---------------------------------------------------------------------------
// Lines and words
// ---------------------------------------------------------------------------

/// The length of the first line of `t`: up to the first `'\n'`, or all of it.
pub open spec fn line_len(t: Seq<char>) -> nat
    decreases t.len(),
{
    if t.len() == 0 || t[0] == '\n' {
        0
    } else {
        1 + line_len(t.drop_first())
    }
}

/// The lines of `t`, split at `'\n'`; a final `'\n'` ends the last line
/// rather than starting an empty one. (`str::lines` also drops a `'\r'`
/// before the `'\n'`; every use below treats `'\r'` as whitespace, so the
/// difference never shows.)
pub open spec fn lines_of(t: Seq<char>) -> Seq<Seq<char>>
    decreases t.len(),
{
    if t.len() == 0 {
        Seq::empty()
    } else {
        let k = line_len(t);
        if k < t.len() {
            seq![t.take(k as int)] + lines_of(t.skip(k + 1int))
        } else {
            seq![t]
        }
    }
}

/// The length of the word at the start of `s`: up to the first whitespace.
pub open spec fn word_len(s: Seq<char>) -> nat
    decreases s.len(),
{
    if s.len() == 0 || is_whitespace(s[0]) {
        0
    } else {
        1 + word_len(s.drop_first())
    }
}

/// The words of `s`, as `str::split_whitespace` gives them: the maximal runs
/// of characters that are not whitespace.
pub open spec fn words_of(s: Seq<char>) -> Seq<Seq<char>>
    decreases s.len(),
{
    if s.len() == 0 {
        Seq::empty()
    } else if is_whitespace(s[0]) {
        words_of(s.drop_first())
    } else {
        let k = word_len(s);
        proof {
            lemma_word_len_bound(s);
        }
        seq![s.take(k as int)] + words_of(s.skip(k as int))
    }
}

pub proof fn lemma_word_len_bound(s: Seq<char>)
    ensures
        word_len(s) <= s.len(),
        s.len() > 0 && !is_whitespace(s[0]) ==> word_len(s) >= 1,
    decreases s.len(),
{
    if s.len() > 0 && !is_whitespace(s[0]) {
        lemma_word_len_bound(s.drop_first());
    }
}

proof fn lemma_line_len_bound(t: Seq<char>)
    ensures
        line_len(t) <= t.len(),
        line_len(t) < t.len() ==> t[line_len(t) as int] == '\n',
        forall|i: int| 0 <= i < line_len(t) ==> t[i] != '\n',
    decreases t.len(),
{
    if t.len() > 0 && t[0] != '\n' {
        lemma_line_len_bound(t.drop_first());
        assert forall|i: int| 0 <= i < line_len(t) implies t[i] != '\n' by {
            if i > 0 {
                assert(t[i] == t.drop_first()[i - 1]);
            }
        }
    }
}

/// Scanning for the end of a line finds [`line_len`].
proof fn lemma_line_len_scan(t: Seq<char>, k: int)
    requires
        0 <= k <= t.len(),
        forall|i: int| 0 <= i < k ==> t[i] != '\n',
        k == t.len() || t[k] == '\n',
    ensures
        line_len(t) == k,
    decreases t.len(),
{
    if k > 0 {
        let u = t.drop_first();
        assert forall|i: int| 0 <= i < k - 1 implies u[i] != '\n' by {
            assert(u[i] == t[i + 1]);
        }
        if k - 1 < u.len() {
            assert(u[k - 1] == t[k]);
        }
        lemma_line_len_scan(u, k - 1);
    }
}

/// Scanning for the end of a word finds [`word_len`].
proof fn lemma_word_len_scan(s: Seq<char>, k: int)
    requires
        0 <= k <= s.len(),
        forall|i: int| 0 <= i < k ==> !is_whitespace(s[i]),
        k == s.len() || is_whitespace(s[k]),
    ensures
        word_len(s) == k,
    decreases s.len(),
{
    if k > 0 {
        let u = s.drop_first();
        assert forall|i: int| 0 <= i < k - 1 implies !is_whitespace(u[i]) by {
            assert(u[i] == s[i + 1]);
        }
        if k - 1 < u.len() {
            assert(u[k - 1] == s[k]);
        }
        lemma_word_len_scan(u, k - 1);
    }
}

// ---------------------------------------------------------------------------
// Screen size
// ---------------------------------------------------------------------------

/// `s` contains `pat` at some position.
pub open spec fn contains_seq(s: Seq<char>, pat: Seq<char>) -> bool {
    exists|i: int| 0 <= i && i + pat.len() <= s.len() && #[trigger] s.subrange(i, i + pat.len()) == pat
}

/// The index of the first `c` in `s`, if any.
pub open spec fn first_index_of(s: Seq<char>, c: char) -> Option<int>
    decreases s.len(),
{
    if s.len() == 0 {
        None
    } else if s[0] == c {
        Some(0)
    } else {
        match first_index_of(s.drop_first(), c) {
            Some(i) => Some(i + 1),
            None => None,
        }
    }
}

/// The width and height texts of an `xrandr` geometry word such as
/// `1920x1080+0+0`: the part before the first `+` split at its first `x`.
pub open spec fn geometry_parts(w: Seq<char>) -> Option<(Seq<char>, Seq<char>)> {
    match first_index_of(w, '+') {
        Some(p) => {
            let res = w.take(p);
            match first_index_of(res, 'x') {
                Some(q) => Some((res.take(q), res.skip(q + 1))),
                None => None,
            }
        },
        None => None,
    }
}

/// The geometry parts of the words that have a geometry, in order.
pub open spec fn word_geometries(ws: Seq<Seq<char>>) -> Seq<(Seq<char>, Seq<char>)>
    decreases ws.len(),
{
    if ws.len() == 0 {
        Seq::empty()
    } else {
        (match geometry_parts(ws[0]) {
            Some(g) => seq![g],
            None => Seq::empty(),
        }) + word_geometries(ws.drop_first())
    }
}

/// The geometry parts of the words of the lines that describe a connected
/// output (that contain ` connected`), in order.
pub open spec fn lines_geometries(ls: Seq<Seq<char>>) -> Seq<(Seq<char>, Seq<char>)>
    decreases ls.len(),
{
    if ls.len() == 0 {
        Seq::empty()
    } else {
        (if contains_seq(ls[0], " connected"@) {
            word_geometries(words_of(ls[0]))
        } else {
            Seq::empty()
        }) + lines_geometries(ls.drop_first())
    }
}

/// The candidate screen sizes in the output of `xrandr --current`: the width
/// and height texts of each geometry word, such as `1920x1080+0+0`, on the
/// lines of connected outputs, in order. The screen size is the first
/// candidate whose two texts parse as numbers.
pub open spec fn xrandr_geometries(text: Seq<char>) -> Seq<(Seq<char>, Seq<char>)> {
    lines_geometries(lines_of(text))
}

/// The view of a list of string pairs.
pub open spec fn pairs_view(v: Seq<(String, String)>) -> Seq<(Seq<char>, Seq<char>)> {
    v.map_values(|p: (String, String)| (p.0@, p.1@))
}

/// Whether `v[lo..hi]` contains `pat`.
fn range_contains(v: &Vec<char>, lo: usize, hi: usize, pat: &str) -> (r: bool)
    requires
        lo <= hi <= v@.len(),
    ensures
        r == contains_seq(v@.subrange(lo as int, hi as int), pat@),
{
    let ghost s = v@.subrange(lo as int, hi as int);
    let m = chars_of(pat).len();
    if m > hi - lo {
        assert forall|i: int| 0 <= i && i + pat@.len() <= s.len() implies #[trigger] s.subrange(
            i,
            i + pat@.len(),
        ) != pat@ by {}
        return false;
    }
    if m == 0 {
        assert(s.subrange(0int, 0int + pat@.len()) =~= pat@);
        return true;
    }
    let mut i = lo;
    while i <= hi - m
        invariant
            1 <= m,
            lo <= i,
            hi <= v@.len(),
            m == pat@.len(),
            m <= hi - lo,
            s == v@.subrange(lo as int, hi as int),
            forall|j: int| 0 <= j < i - lo ==> #[trigger] s.subrange(j, j + m) != pat@,
        decreases hi - i,
    {
        if range_equals_str(v, i, i + m, pat) {
            assert(s.subrange(i - lo, i - lo + m) =~= v@.subrange(i as int, i + m));
            return true;
        }
        assert(s.subrange(i - lo, i - lo + m) =~= v@.subrange(i as int, i + m));
        i += 1;
    }
    false
}

/// The index of the first `c` in `v[lo..hi]`, counted from `lo`.
fn range_find(v: &Vec<char>, lo: usize, hi: usize, c: char) -> (r: Option<usize>)
    requires
        lo <= hi <= v@.len(),
    ensures
        match r {
            Some(i) => i < hi - lo && first_index_of(v@.subrange(lo as int, hi as int), c) == Some(
                i as int,
            ),
            None => first_index_of(v@.subrange(lo as int, hi as int), c) is None,
        },
{
    let mut i = lo;
    while i < hi
        invariant
            lo <= i <= hi <= v@.len(),
            first_index_of(v@.subrange(lo as int, hi as int), c) == match first_index_of(
                v@.subrange(i as int, hi as int),
                c,
            ) {
                Some(k) => Some(k + (i - lo)),
                None => None,
            },
        decreases hi - i,
    {
        assert(v@.subrange(i as int, hi as int).drop_first() =~= v@.subrange(i + 1, hi as int));
        if v[i] == c {
            return Some(i - lo);
        }
        i += 1;
    }
    None
}

/// The geometry parts of the word `v[lo..hi]`.
fn word_geometry(v: &Vec<char>, lo: usize, hi: usize) -> (r: Option<(String, String)>)
    requires
        lo <= hi <= v@.len(),
    ensures
        match r {
            Some((a, b)) => geometry_parts(v@.subrange(lo as int, hi as int)) == Some((a@, b@)),
            None => geometry_parts(v@.subrange(lo as int, hi as int)) is None,
        },
{
    let ghost w = v@.subrange(lo as int, hi as int);
    let p = match range_find(v, lo, hi, '+') {
        Some(p) => p,
        None => {
            return None;
        },
    };
    assert(w.take(p as int) =~= v@.subrange(lo as int, lo + p));
    let q = match range_find(v, lo, lo + p, 'x') {
        Some(q) => q,
        None => {
            return None;
        },
    };
    let width = string_from_range(v, lo, lo + q);
    let height = string_from_range(v, lo + q + 1, lo + p);
    assert(w.take(p as int).take(q as int) =~= v@.subrange(lo as int, lo + q));
    assert(w.take(p as int).skip(q + 1) =~= v@.subrange(lo + q + 1, lo + p));
    Some((width, height))
}

/// Appends to `out` the geometry parts of the words of `v[lo..hi]`.
fn line_geometries(v: &Vec<char>, lo: usize, hi: usize, out: &mut Vec<(String, String)>)
    requires
        lo <= hi <= v@.len(),
    ensures
        pairs_view(final(out)@) == pairs_view(old(out)@) + word_geometries(
            words_of(v@.subrange(lo as int, hi as int)),
        ),
{
    let ghost start = pairs_view(out@);
    let ghost line = v@.subrange(lo as int, hi as int);
    let mut i = lo;
    assert(pairs_view(out@) + word_geometries(words_of(line)) =~= start + word_geometries(
        words_of(line),
    ));
    while i < hi
        invariant
            lo <= i <= hi <= v@.len(),
            line == v@.subrange(lo as int, hi as int),
            start + word_geometries(words_of(line)) == pairs_view(out@) + word_geometries(
                words_of(v@.subrange(i as int, hi as int)),
            ),
        decreases hi - i,
    {
        let ghost rest = v@.subrange(i as int, hi as int);
        if char_is_whitespace(v[i]) {
            assert(rest.drop_first() =~= v@.subrange(i + 1, hi as int));
            i += 1;
        } else {
            let mut j = i;
            while j < hi && !char_is_whitespace(v[j])
                invariant
                    i <= j <= hi <= v@.len(),
                    forall|t: int| i <= t < j ==> !is_whitespace(#[trigger] v@[t]),
                decreases hi - j,
            {
                j += 1;
            }
            let ghost before = pairs_view(out@);
            proof {
                assert forall|t: int| 0 <= t < j - i implies !is_whitespace(rest[t]) by {
                    assert(rest[t] == v@[i + t]);
                }
                if j < hi {
                    assert(rest[j - i] == v@[j as int]);
                }
                lemma_word_len_scan(rest, j - i);
                let ws = words_of(rest);
                assert(rest.take(j - i) =~= v@.subrange(i as int, j as int));
                assert(rest.skip(j - i) =~= v@.subrange(j as int, hi as int));
                assert(ws[0] == v@.subrange(i as int, j as int));
                assert(ws.drop_first() =~= words_of(v@.subrange(j as int, hi as int)));
            }
            match word_geometry(v, i, j) {
                Some(g) => {
                    let ghost gv = (g.0@, g.1@);
                    out.push(g);
                    assert(pairs_view(out@) =~= before.push(gv));
                    assert(before + word_geometries(words_of(rest)) =~= pairs_view(out@)
                        + word_geometries(words_of(v@.subrange(j as int, hi as int))));
                },
                None => {
                    assert(before + word_geometries(words_of(rest)) =~= pairs_view(out@)
                        + word_geometries(words_of(v@.subrange(j as int, hi as int))));
                },
            }
            i = j;
        }
    }
    assert(words_of(v@.subrange(i as int, hi as int)) =~= Seq::<Seq<char>>::empty());
    assert(pairs_view(out@) + word_geometries(Seq::<Seq<char>>::empty()) =~= pairs_view(out@));
}

/// Reads the candidate screen sizes from the output of `xrandr --current`:
/// the width and height texts of each geometry word, such as
/// `1920x1080+0+0`, on the lines of connected outputs, in order.
pub fn screen_size_candidates(text: &str) -> (r: Vec<(String, String)>)
    ensures
        pairs_view(r@) == xrandr_geometries(text@),
{
    let v = chars_of(text);
    let n = v.len();
    let mut out: Vec<(String, String)> = Vec::new();
    let mut pos: usize = 0;
    assert(v@.subrange(0, n as int) =~= v@);
    assert(pairs_view(out@) + lines_geometries(lines_of(v@)) =~= lines_geometries(lines_of(v@)));
    while pos < n
        invariant
            pos <= n == v@.len(),
            v@ == text@,
            xrandr_geometries(text@) == pairs_view(out@) + lines_geometries(
                lines_of(v@.subrange(pos as int, n as int)),
            ),
        decreases n - pos,
    {
        let ghost rest = v@.subrange(pos as int, n as int);
        let mut end = pos;
        while end < n && v[end] != '\n'
            invariant
                pos <= end <= n == v@.len(),
                forall|t: int| pos <= t < end ==> #[trigger] v@[t] != '\n',
            decreases n - end,
        {
            end += 1;
        }
        let ghost next = if end < n {
            v@.subrange(end + 1, n as int)
        } else {
            Seq::<char>::empty()
        };
        proof {
            assert forall|t: int| 0 <= t < end - pos implies rest[t] != '\n' by {
                assert(rest[t] == v@[pos + t]);
            }
            if end < n {
                assert(rest[end - pos] == v@[end as int]);
            }
            lemma_line_len_scan(rest, end - pos);
            let ls = lines_of(rest);
            assert(rest.take(end - pos) =~= v@.subrange(pos as int, end as int));
            if end < n {
                assert(rest.skip(end - pos + 1) =~= next);
                assert(ls[0] == v@.subrange(pos as int, end as int));
                assert(ls.drop_first() =~= lines_of(next));
            } else {
                assert(rest.take(end - pos) =~= rest);
                assert(ls =~= seq![rest]);
                assert(ls.drop_first() =~= lines_of(next));
            }
        }
        let ghost before = pairs_view(out@);
        if range_contains(&v, pos, end, " connected") {
            line_geometries(&v, pos, end, &mut out);
        }
        assert(before + lines_geometries(lines_of(rest)) =~= pairs_view(out@) + lines_geometries(
            lines_of(next),
        ));
        if end == n {
            assert(v@.subrange(n as int, n as int) =~= next);
            pos = n;
        } else {
            pos = end + 1;
        }
    }
    assert(v@.subrange(pos as int, n as int) =~= Seq::<char>::empty());
    assert(pairs_view(out@) + lines_geometries(Seq::<Seq<char>>::empty()) =~= pairs_view(out@));
    out
}

// ---------------------------------------------------------------------------
// Window icon
// ---------------------------------------------------------------------------

/// An image as RGBA pixels, row by row.
#[derive(Debug)]
pub struct IconImage {
    pub rgba: Vec<u8>,
    pub width: u32,
    pub height: u32,
}

/// The RGBA pixels, width and height that the image file `bytes` decodes
/// to, or `None` when it cannot be decoded.
pub uninterp spec fn decoded_rgba(bytes: Seq<u8>) -> Option<(Seq<u8>, u32, u32)>;

/// Decodes an image file with `image::load_from_memory`, converts it with
/// `DynamicImage::into_rgba8` and takes its dimensions and raw pixels. The
/// contract only names the result [`decoded_rgba`]; the formats accepted and
/// the pixels produced are those of the `image` crate.
#[verifier::external_body]
fn decode_rgba(bytes: &[u8]) -> (r: Option<(Vec<u8>, u32, u32)>)
    ensures
        match r {
            Some((px, w, h)) => decoded_rgba(bytes@) == Some((px@, w, h)),
            None => decoded_rgba(bytes@) is None,
        },
{
    match image::load_from_memory(bytes) {
        Ok(img) => {
            let rgba = img.into_rgba8();
            let (w, h) = rgba.dimensions();
            Some((rgba.into_raw(), w, h))
        },
        Err(_) => None,
    }
}

/// The window icon decoded from the icon file `bytes`.
pub fn load_icon(bytes: &[u8]) -> (r: Option<IconImage>)
    ensures
        match r {
            Some(icon) => decoded_rgba(bytes@) == Some((icon.rgba@, icon.width, icon.height)),
            None => decoded_rgba(bytes@) is None,
        },
{
    match decode_rgba(bytes) {
        Some((rgba, width, height)) => Some(IconImage { rgba, width, height }),
        None => None,
    }
}

} // verus!
