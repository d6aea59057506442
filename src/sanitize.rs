use vstd::prelude::*;
use crate::text::{chars_of, contains, lemma_replace_absent, occurs_at, replace_all, replace_all_exec, string_of};

verus! {

// ---- patterns -------------------------------------------------------------

pub open spec fn nbsp_named() -> Seq<char> { seq!['&', 'n', 'b', 's', 'p', ';'] }
pub open spec fn nbsp_numeric() -> Seq<char> { seq!['&', '#', '1', '6', '0', ';'] }
pub open spec fn mdash_named() -> Seq<char> { seq!['&', 'm', 'd', 'a', 's', 'h', ';'] }
pub open spec fn mdash_numeric() -> Seq<char> { seq!['&', '#', '8', '2', '1', '2', ';'] }
pub open spec fn ndash_named() -> Seq<char> { seq!['&', 'n', 'd', 'a', 's', 'h', ';'] }
pub open spec fn ndash_numeric() -> Seq<char> { seq!['&', '#', '8', '2', '1', '1', ';'] }
pub open spec fn lsquo_named() -> Seq<char> { seq!['&', 'l', 's', 'q', 'u', 'o', ';'] }
pub open spec fn lsquo_numeric() -> Seq<char> { seq!['&', '#', '8', '2', '1', '6', ';'] }
pub open spec fn rsquo_named() -> Seq<char> { seq!['&', 'r', 's', 'q', 'u', 'o', ';'] }
pub open spec fn rsquo_numeric() -> Seq<char> { seq!['&', '#', '8', '2', '1', '7', ';'] }
pub open spec fn ldquo_named() -> Seq<char> { seq!['&', 'l', 'd', 'q', 'u', 'o', ';'] }
pub open spec fn ldquo_numeric() -> Seq<char> { seq!['&', '#', '8', '2', '2', '0', ';'] }
pub open spec fn rdquo_named() -> Seq<char> { seq!['&', 'r', 'd', 'q', 'u', 'o', ';'] }
pub open spec fn rdquo_numeric() -> Seq<char> { seq!['&', '#', '8', '2', '2', '1', ';'] }
pub open spec fn hellip_named() -> Seq<char> { seq!['&', 'h', 'e', 'l', 'l', 'i', 'p', ';'] }
pub open spec fn hellip_numeric() -> Seq<char> { seq!['&', '#', '8', '2', '3', '0', ';'] }

pub open spec fn br_open() -> Seq<char> { seq!['<', 'b', 'r', '>'] }
pub open spec fn br_tight() -> Seq<char> { seq!['<', 'b', 'r', '/', '>'] }
pub open spec fn br_closed() -> Seq<char> { seq!['<', 'b', 'r', ' ', '/', '>'] }
pub open spec fn hr_open() -> Seq<char> { seq!['<', 'h', 'r', '>'] }
pub open spec fn hr_tight() -> Seq<char> { seq!['<', 'h', 'r', '/', '>'] }
pub open spec fn hr_closed() -> Seq<char> { seq!['<', 'h', 'r', ' ', '/', '>'] }

pub open spec fn iframe_open() -> Seq<char> { seq!['<', 'i', 'f', 'r', 'a', 'm', 'e'] }
pub open spec fn iframe_close() -> Seq<char> { seq!['<', '/', 'i', 'f', 'r', 'a', 'm', 'e', '>'] }
pub open spec fn img_open() -> Seq<char> { seq!['<', 'i', 'm', 'g'] }
pub open spec fn tag_end() -> Seq<char> { seq!['>'] }

// ---- case-insensitive search -----------------------------------------------

/// `c` equals the pattern character `p`, or `p` is a lower-case ASCII letter and `c` its capital.
pub open spec fn ci_char(c: char, p: char) -> bool {
    c == p || ('a' <= p && p <= 'z' && c as u32 + 32 == p as u32)
}

/// Whether `p` occurs at position `i` of `s`, ignoring the case of ASCII letters.
pub open spec fn ci_occurs_at(s: Seq<char>, i: int, p: Seq<char>) -> bool {
    0 <= i && i + p.len() <= s.len() && forall|k: int| 0 <= k < p.len() ==> ci_char(#[trigger] s[i + k], p[k])
}

/// The first position at or after `from` where `p` occurs, ignoring ASCII case.
pub open spec fn find_ci(s: Seq<char>, from: nat, p: Seq<char>) -> Option<int>
    decreases s.len() - from,
{
    if from >= s.len() {
        None
    } else if ci_occurs_at(s, from as int, p) {
        Some(from as int)
    } else {
        find_ci(s, from + 1, p)
    }
}

// ---- passes ----------------------------------------------------------------

/// Named character entities rewritten to numeric references, one entity after the other.
pub open spec fn rewrite_entities(s: Seq<char>) -> Seq<char> {
    let s1 = replace_all(s, nbsp_named(), nbsp_numeric());
    let s2 = replace_all(s1, mdash_named(), mdash_numeric());
    let s3 = replace_all(s2, ndash_named(), ndash_numeric());
    let s4 = replace_all(s3, lsquo_named(), lsquo_numeric());
    let s5 = replace_all(s4, rsquo_named(), rsquo_numeric());
    let s6 = replace_all(s5, ldquo_named(), ldquo_numeric());
    let s7 = replace_all(s6, rdquo_named(), rdquo_numeric());
    replace_all(s7, hellip_named(), hellip_numeric())
}

/// `<br>`, `<hr>`, `<br/>` and `<hr/>` rewritten to `<br />` and `<hr />`.
pub open spec fn close_void_elements(s: Seq<char>) -> Seq<char> {
    let s1 = replace_all(s, br_open(), br_closed());
    let s2 = replace_all(s1, hr_open(), hr_closed());
    let s3 = replace_all(s2, br_tight(), br_closed());
    replace_all(s3, hr_tight(), hr_closed())
}

/// Every region from `<iframe` to the nearest following `</iframe>` removed (ASCII case
/// ignored), scanning from the left; an `<iframe` without a closing tag after it stays.
pub open spec fn strip_iframes(s: Seq<char>) -> Seq<char>
    decreases s.len(),
{
    let e = find_ci(s, 7, iframe_close());
    if s.len() == 0 {
        s
    } else if ci_occurs_at(s, 0, iframe_open()) && e.is_some() && 0 <= e.unwrap() && e.unwrap() + 9 <= s.len() {
        strip_iframes(s.subrange(e.unwrap() + 9, s.len() as int))
    } else {
        seq![s[0]] + strip_iframes(s.subrange(1, s.len() as int))
    }
}

/// Every tag from `<img` to the nearest following `>` removed (ASCII case ignored),
/// scanning from the left; an `<img` without a `>` after it stays.
pub open spec fn strip_images(s: Seq<char>) -> Seq<char>
    decreases s.len(),
{
    let e = find_ci(s, 4, tag_end());
    if s.len() == 0 {
        s
    } else if ci_occurs_at(s, 0, img_open()) && e.is_some() && 0 <= e.unwrap() && e.unwrap() + 1 <= s.len() {
        strip_images(s.subrange(e.unwrap() + 1, s.len() as int))
    } else {
        seq![s[0]] + strip_images(s.subrange(1, s.len() as int))
    }
}

/// The whole sanitizer: entities, then void elements, then frames, then images.
pub open spec fn sanitized(s: Seq<char>) -> Seq<char> {
    strip_images(strip_iframes(close_void_elements(rewrite_entities(s))))
}

// ---- idempotence -----------------------------------------------------------

/// No `<iframe` in `s` has a `</iframe>` after it (ASCII case ignored).
pub open spec fn frame_free(s: Seq<char>) -> bool {
    forall|i: int, j: int|
        #![trigger ci_occurs_at(s, i, iframe_open()), ci_occurs_at(s, j, iframe_close())]
        ci_occurs_at(s, i, iframe_open()) && j >= i + 7 ==> !ci_occurs_at(s, j, iframe_close())
}

/// No `<img` in `s` has a `>` after it (ASCII case ignored).
pub open spec fn image_free(s: Seq<char>) -> bool {
    forall|i: int, j: int|
        #![trigger ci_occurs_at(s, i, img_open()), ci_occurs_at(s, j, tag_end())]
        ci_occurs_at(s, i, img_open()) && j >= i + 4 ==> !ci_occurs_at(s, j, tag_end())
}

/// `s` holds nothing that one of the sanitizer's passes would rewrite or remove.
pub open spec fn settled(s: Seq<char>) -> bool {
    &&& !contains(s, nbsp_named())
    &&& !contains(s, mdash_named())
    &&& !contains(s, ndash_named())
    &&& !contains(s, lsquo_named())
    &&& !contains(s, rsquo_named())
    &&& !contains(s, ldquo_named())
    &&& !contains(s, rdquo_named())
    &&& !contains(s, hellip_named())
    &&& !contains(s, br_open())
    &&& !contains(s, hr_open())
    &&& !contains(s, br_tight())
    &&& !contains(s, hr_tight())
    &&& frame_free(s)
    &&& image_free(s)
}

proof fn lemma_find_ci_none(s: Seq<char>, from: nat, p: Seq<char>)
    requires
        forall|j: int| j >= from ==> !#[trigger] ci_occurs_at(s, j, p),
    ensures
        find_ci(s, from, p).is_none(),
    decreases s.len() - from,
{
    if from < s.len() {
        assert(!ci_occurs_at(s, from as int, p));
        lemma_find_ci_none(s, from + 1, p);
    }
}

proof fn lemma_ci_shift(s: Seq<char>, i: int, p: Seq<char>)
    requires
        s.len() > 0,
        ci_occurs_at(s.subrange(1, s.len() as int), i, p),
    ensures
        ci_occurs_at(s, i + 1, p),
{
    let t = s.subrange(1, s.len() as int);
    assert forall|k: int| 0 <= k < p.len() implies ci_char(#[trigger] s[i + 1 + k], p[k]) by {
        assert(t[i + k] == s[i + 1 + k]);
    }
    assert forall|k: int| 0 <= k < p.len() implies ci_char(#[trigger] s[(i + 1) + k], p[k]) by {
        assert(i + 1 + k == (i + 1) + k);
    }
}

proof fn lemma_strip_iframes_settled(s: Seq<char>)
    requires
        frame_free(s),
    ensures
        strip_iframes(s) == s,
    decreases s.len(),
{
    if s.len() > 0 {
        if ci_occurs_at(s, 0, iframe_open()) {
            lemma_find_ci_none(s, 7, iframe_close());
        }
        let t = s.subrange(1, s.len() as int);
        assert forall|i: int, j: int|
            ci_occurs_at(t, i, iframe_open()) && j >= i + 7 implies !ci_occurs_at(t, j, iframe_close()) by {
            lemma_ci_shift(s, i, iframe_open());
            if ci_occurs_at(t, j, iframe_close()) {
                lemma_ci_shift(s, j, iframe_close());
            }
        }
        lemma_strip_iframes_settled(t);
        assert(seq![s[0]] + t =~= s);
    }
}

proof fn lemma_strip_images_settled(s: Seq<char>)
    requires
        image_free(s),
    ensures
        strip_images(s) == s,
    decreases s.len(),
{
    if s.len() > 0 {
        if ci_occurs_at(s, 0, img_open()) {
            lemma_find_ci_none(s, 4, tag_end());
        }
        let t = s.subrange(1, s.len() as int);
        assert forall|i: int, j: int|
            ci_occurs_at(t, i, img_open()) && j >= i + 4 implies !ci_occurs_at(t, j, tag_end()) by {
            lemma_ci_shift(s, i, img_open());
            if ci_occurs_at(t, j, tag_end()) {
                lemma_ci_shift(s, j, tag_end());
            }
        }
        lemma_strip_images_settled(t);
        assert(seq![s[0]] + t =~= s);
    }
}

/// The sanitizer leaves a settled fragment as it is.
pub proof fn lemma_sanitize_settled(y: Seq<char>)
    requires
        settled(y),
    ensures
        sanitized(y) == y,
{
    lemma_replace_absent(y, nbsp_named(), nbsp_numeric());
    lemma_replace_absent(y, mdash_named(), mdash_numeric());
    lemma_replace_absent(y, ndash_named(), ndash_numeric());
    lemma_replace_absent(y, lsquo_named(), lsquo_numeric());
    lemma_replace_absent(y, rsquo_named(), rsquo_numeric());
    lemma_replace_absent(y, ldquo_named(), ldquo_numeric());
    lemma_replace_absent(y, rdquo_named(), rdquo_numeric());
    lemma_replace_absent(y, hellip_named(), hellip_numeric());
    lemma_replace_absent(y, br_open(), br_closed());
    lemma_replace_absent(y, hr_open(), hr_closed());
    lemma_replace_absent(y, br_tight(), br_closed());
    lemma_replace_absent(y, hr_tight(), hr_closed());
    lemma_strip_iframes_settled(y);
    lemma_strip_images_settled(y);
}

/// Sanitizing twice gives what sanitizing once gave, whenever the first result is
/// settled. It is not settled where stripping a frame or an image joins the text
/// around it into something a pass rewrites (`&nb<img>sp;`).
pub proof fn lemma_sanitize_idempotent(x: Seq<char>)
    requires
        settled(sanitized(x)),
    ensures
        sanitized(sanitized(x)) == sanitized(x),
{
    lemma_sanitize_settled(sanitized(x));
}

// ---- stripping keeps the surrounding text ------------------------------------

/// The frame `<iframe src="x">body</iframe>`.
pub open spec fn sample_frame() -> Seq<char> {
    seq!['<', 'i', 'f', 'r', 'a', 'm', 'e', ' ', 's', 'r', 'c', '=', '"', 'x', '"', '>', 'b', 'o', 'd', 'y', '<', '/', 'i', 'f', 'r', 'a', 'm', 'e', '>']
}

/// The image tag `<img src="y">`.
pub open spec fn sample_image() -> Seq<char> {
    seq!['<', 'i', 'm', 'g', ' ', 's', 'r', 'c', '=', '"', 'y', '"', '>']
}

/// Text with no `<` and no `&`: nothing in it starts a tag or an entity.
pub open spec fn plain_text(a: Seq<char>) -> bool {
    forall|i: int| 0 <= i < a.len() ==> #[trigger] a[i] != '<' && a[i] != '&'
}

proof fn lemma_absent(s: Seq<char>, pat: Seq<char>)
    requires
        pat.len() >= 2,
        forall|i: int| 0 <= i < s.len() - 1 ==> !(#[trigger] s[i] == pat[0] && s[i + 1] == pat[1]),
    ensures
        !contains(s, pat),
{
    assert forall|i: int| !#[trigger] occurs_at(s, i, pat) by {
        if occurs_at(s, i, pat) {
            assert(s.subrange(i, i + pat.len())[0] == s[i]);
            assert(s.subrange(i, i + pat.len())[1] == s[i + 1]);
        }
    }
}

proof fn lemma_peel_frames(a: Seq<char>, b: Seq<char>)
    requires
        plain_text(a),
    ensures
        strip_iframes(a + b) == a + strip_iframes(b),
    decreases a.len(),
{
    if a.len() > 0 {
        let t = a.subrange(1, a.len() as int);
        assert((a + b)[0] == a[0]);
        assert(!ci_occurs_at(a + b, 0, iframe_open())) by {
            assert(!ci_char((a + b)[0int + 0], iframe_open()[0]));
        }
        assert((a + b).subrange(1, (a + b).len() as int) =~= t + b);
        lemma_peel_frames(t, b);
        assert(seq![a[0]] + (t + strip_iframes(b)) =~= a + strip_iframes(b));
    } else {
        assert(a + b =~= b);
        assert(a + strip_iframes(b) =~= strip_iframes(b));
    }
}

proof fn lemma_peel_images(a: Seq<char>, b: Seq<char>)
    requires
        plain_text(a),
    ensures
        strip_images(a + b) == a + strip_images(b),
    decreases a.len(),
{
    if a.len() > 0 {
        let t = a.subrange(1, a.len() as int);
        assert((a + b)[0] == a[0]);
        assert(!ci_occurs_at(a + b, 0, img_open())) by {
            assert(!ci_char((a + b)[0int + 0], img_open()[0]));
        }
        assert((a + b).subrange(1, (a + b).len() as int) =~= t + b);
        lemma_peel_images(t, b);
        assert(seq![a[0]] + (t + strip_images(b)) =~= a + strip_images(b));
    } else {
        assert(a + b =~= b);
        assert(a + strip_images(b) =~= strip_images(b));
    }
}

proof fn lemma_find_ci_at(s: Seq<char>, from: nat, to: nat, p: Seq<char>)
    requires
        from <= to < s.len(),
        p.len() > 0,
        forall|k: int| from <= k < to ==> #[trigger] s[k] != p[0],
        p[0] == '<' || p[0] == '>',
        ci_occurs_at(s, to as int, p),
    ensures
        find_ci(s, from, p) == Some(to as int),
    decreases to - from,
{
    if from < to {
        assert(!ci_char(s[from as int + 0], p[0]));
        lemma_find_ci_at(s, from + 1, to, p);
    }
}

/// A frame and an image tag are removed and the text around them is kept, for
/// text that holds no `<` and no `&`.
pub proof fn lemma_strips_frame_and_image(p: Seq<char>, m: Seq<char>, q: Seq<char>)
    requires
        plain_text(p),
        plain_text(m),
        plain_text(q),
    ensures
        sanitized(p + sample_frame() + m + sample_image() + q) == p + m + q,
{
    let f = sample_frame();
    let g = sample_image();
    let s = p + f + m + g + q;
    assert forall|k: int| 0 <= k < 29 implies #[trigger] f[k] != '&' && (f[k] == '<' ==> (k == 0 || k == 20))
        && (f[k] == '>' ==> (k == 15 || k == 28)) by {
        assert(k == 0 || k == 1 || k == 2 || k == 3 || k == 4 || k == 5 || k == 6 || k == 7 || k == 8 || k == 9
            || k == 10 || k == 11 || k == 12 || k == 13 || k == 14 || k == 15 || k == 16 || k == 17 || k == 18
            || k == 19 || k == 20 || k == 21 || k == 22 || k == 23 || k == 24 || k == 25 || k == 26 || k == 27
            || k == 28);
    }
    assert forall|k: int| 0 <= k < 13 implies #[trigger] g[k] != '&' && (g[k] == '<' ==> k == 0) && (g[k] == '>'
        ==> k == 12) by {
        assert(k == 0 || k == 1 || k == 2 || k == 3 || k == 4 || k == 5 || k == 6 || k == 7 || k == 8 || k == 9
            || k == 10 || k == 11 || k == 12);
    }
    let lp = p.len() as int;
    let lm = m.len() as int;
    assert forall|i: int| 0 <= i < s.len() - 1 implies #[trigger] s[i] != '&' && (s[i] == '<' ==> (s[i + 1] == 'i'
        || s[i + 1] == '/')) by {
        if i < lp {
            assert(s[i] == p[i]);
        } else if i < lp + 29 {
            assert(s[i] == f[i - lp]);
            if i - lp == 0 || i - lp == 20 {
                assert(s[i + 1] == f[i - lp + 1]);
            }
        } else if i < lp + 29 + lm {
            assert(s[i] == m[i - lp - 29]);
        } else if i < lp + 29 + lm + 13 {
            assert(s[i] == g[i - lp - 29 - lm]);
            if i - lp - 29 - lm == 0 {
                assert(s[i + 1] == g[1]);
            }
        } else {
            assert(s[i] == q[i - lp - 29 - lm - 13]);
        }
    }
    lemma_absent(s, nbsp_named());
    lemma_absent(s, mdash_named());
    lemma_absent(s, ndash_named());
    lemma_absent(s, lsquo_named());
    lemma_absent(s, rsquo_named());
    lemma_absent(s, ldquo_named());
    lemma_absent(s, rdquo_named());
    lemma_absent(s, hellip_named());
    lemma_absent(s, br_open());
    lemma_absent(s, hr_open());
    lemma_absent(s, br_tight());
    lemma_absent(s, hr_tight());
    lemma_replace_absent(s, nbsp_named(), nbsp_numeric());
    lemma_replace_absent(s, mdash_named(), mdash_numeric());
    lemma_replace_absent(s, ndash_named(), ndash_numeric());
    lemma_replace_absent(s, lsquo_named(), lsquo_numeric());
    lemma_replace_absent(s, rsquo_named(), rsquo_numeric());
    lemma_replace_absent(s, ldquo_named(), ldquo_numeric());
    lemma_replace_absent(s, rdquo_named(), rdquo_numeric());
    lemma_replace_absent(s, hellip_named(), hellip_numeric());
    lemma_replace_absent(s, br_open(), br_closed());
    lemma_replace_absent(s, hr_open(), hr_closed());
    lemma_replace_absent(s, br_tight(), br_closed());
    lemma_replace_absent(s, hr_tight(), hr_closed());
    assert(close_void_elements(rewrite_entities(s)) == s);
    // frames
    let rest = m + g + q;
    assert(s =~= p + (f + rest));
    lemma_peel_frames(p, f + rest);
    let fr = f + rest;
    assert forall|k: int| 0 <= k < 7 implies ci_char(#[trigger] fr[0 + k], iframe_open()[k]) by {
        assert(fr[0 + k] == f[k]);
        assert(k == 0 || k == 1 || k == 2 || k == 3 || k == 4 || k == 5 || k == 6);
    }
    assert(ci_occurs_at(fr, 0, iframe_open()));
    assert forall|k: int| 0 <= k < 9 implies ci_char(#[trigger] fr[20 + k], iframe_close()[k]) by {
        assert(fr[20 + k] == f[20 + k]);
        assert(k == 0 || k == 1 || k == 2 || k == 3 || k == 4 || k == 5 || k == 6 || k == 7 || k == 8);
    }
    assert forall|k: int| 7 <= k < 20 implies #[trigger] fr[k] != iframe_close()[0] by {
        assert(fr[k] == f[k]);
    }
    lemma_find_ci_at(fr, 7, 20, iframe_close());
    assert(fr.subrange(29, fr.len() as int) =~= rest);
    assert(strip_iframes(fr) == strip_iframes(rest));
    assert(rest =~= m + (g + q));
    lemma_peel_frames(m, g + q);
    let gq = g + q;
    assert(!ci_occurs_at(gq, 0, iframe_open())) by {
        assert(gq[0int + 2] == 'm');
        assert(!ci_char(gq[0int + 2], iframe_open()[2]));
    }
    let tail = gq.subrange(1, gq.len() as int);
    assert forall|i: int| 0 <= i < tail.len() implies #[trigger] tail[i] != '<' && tail[i] != '&' by {
        assert(tail[i] == gq[i + 1]);
        if i + 1 < 13 {
            assert(gq[i + 1] == g[i + 1]);
        } else {
            assert(gq[i + 1] == q[i + 1 - 13]);
        }
    }
    lemma_peel_frames(tail, Seq::empty());
    assert(tail + Seq::<char>::empty() =~= tail);
    assert(seq![gq[0]] + tail =~= gq);
    assert(strip_iframes(gq) == gq);
    let after = p + (m + gq);
    assert(strip_iframes(s) == after);
    // images
    assert(after =~= (p + m) + gq);
    assert(plain_text(p + m)) by {
        assert forall|i: int| 0 <= i < (p + m).len() implies #[trigger] (p + m)[i] != '<' && (p + m)[i] != '&' by {
            if i < lp {
                assert((p + m)[i] == p[i]);
            } else {
                assert((p + m)[i] == m[i - lp]);
            }
        }
    }
    lemma_peel_images(p + m, gq);
    assert forall|k: int| 0 <= k < 4 implies ci_char(#[trigger] gq[0 + k], img_open()[k]) by {
        assert(gq[0 + k] == g[k]);
        assert(k == 0 || k == 1 || k == 2 || k == 3);
    }
    assert(ci_occurs_at(gq, 0, img_open()));
    assert forall|k: int| 4 <= k < 12 implies #[trigger] gq[k] != tag_end()[0] by {
        assert(gq[k] == g[k]);
    }
    assert(ci_char(gq[12int + 0], tag_end()[0]));
    lemma_find_ci_at(gq, 4, 12, tag_end());
    assert(gq.subrange(13, gq.len() as int) =~= q);
    lemma_peel_images(q, Seq::empty());
    assert(q + Seq::<char>::empty() =~= q);
    assert(strip_images(gq) == q);
    assert((p + m) + q =~= p + m + q);
}

// ---- trusted regular-expression passes --------------------------------------

/// Relies on regex::Regex::replace_all with `(?is)<iframe.*?</iframe>`: leftmost,
/// non-overlapping, shortest matches, each replaced by nothing. Case folding of the
/// letters of `iframe` is plain ASCII.
#[verifier::external_body]
fn remove_iframes(html: &str) -> (r: String)
    ensures
        r@ == strip_iframes(html@),
{
    let re = regex::Regex::new(r"(?is)<iframe.*?</iframe>").unwrap();
    re.replace_all(html, "").into_owned()
}

/// Relies on regex::Regex::replace_all with `(?is)<img[^>]*>`: leftmost,
/// non-overlapping matches, each up to the first `>`, replaced by nothing. Case
/// folding of the letters of `img` is plain ASCII.
#[verifier::external_body]
fn remove_images(html: &str) -> (r: String)
    ensures
        r@ == strip_images(html@),
{
    let re = regex::Regex::new(r"(?is)<img[^>]*>").unwrap();
    re.replace_all(html, "").into_owned()
}

// ---- executable passes -----------------------------------------------------

fn replace_pair(s: Vec<char>, named: Vec<char>, numeric: Vec<char>) -> (r: Vec<char>)
    ensures
        r@ == replace_all(s@, named@, numeric@),
{
    replace_all_exec(&s, &named, &numeric)
}

/// Rewrites the eight named entities to numeric character references.
pub fn rewrite_entities_exec(s: &Vec<char>) -> (r: Vec<char>)
    ensures
        r@ == rewrite_entities(s@),
{
    let v = s.clone();
    let v = replace_pair(v, vec!['&', 'n', 'b', 's', 'p', ';'], vec!['&', '#', '1', '6', '0', ';']);
    let v = replace_pair(v, vec!['&', 'm', 'd', 'a', 's', 'h', ';'], vec!['&', '#', '8', '2', '1', '2', ';']);
    let v = replace_pair(v, vec!['&', 'n', 'd', 'a', 's', 'h', ';'], vec!['&', '#', '8', '2', '1', '1', ';']);
    let v = replace_pair(v, vec!['&', 'l', 's', 'q', 'u', 'o', ';'], vec!['&', '#', '8', '2', '1', '6', ';']);
    let v = replace_pair(v, vec!['&', 'r', 's', 'q', 'u', 'o', ';'], vec!['&', '#', '8', '2', '1', '7', ';']);
    let v = replace_pair(v, vec!['&', 'l', 'd', 'q', 'u', 'o', ';'], vec!['&', '#', '8', '2', '2', '0', ';']);
    let v = replace_pair(v, vec!['&', 'r', 'd', 'q', 'u', 'o', ';'], vec!['&', '#', '8', '2', '2', '1', ';']);
    let v = replace_pair(v, vec!['&', 'h', 'e', 'l', 'l', 'i', 'p', ';'], vec!['&', '#', '8', '2', '3', '0', ';']);
    v
}

/// Rewrites `<br>`, `<hr>`, `<br/>`, `<hr/>` to the self-closed `<br />` and `<hr />`.
pub fn close_void_elements_exec(s: &Vec<char>) -> (r: Vec<char>)
    ensures
        r@ == close_void_elements(s@),
{
    let v = replace_pair(s.clone(), vec!['<', 'b', 'r', '>'], vec!['<', 'b', 'r', ' ', '/', '>']);
    let v = replace_pair(v, vec!['<', 'h', 'r', '>'], vec!['<', 'h', 'r', ' ', '/', '>']);
    let v = replace_pair(v, vec!['<', 'b', 'r', '/', '>'], vec!['<', 'b', 'r', ' ', '/', '>']);
    replace_pair(v, vec!['<', 'h', 'r', '/', '>'], vec!['<', 'h', 'r', ' ', '/', '>'])
}

/// Makes an article fragment safe for an e-reader: numeric entities, self-closed
/// void elements, and no frames or images.
pub fn sanitize_html_for_epub(html: &str) -> (r: String)
    ensures
        r@ == sanitized(html@),
{
    let chars = chars_of(html);
    let entities = rewrite_entities_exec(&chars);
    let closed = close_void_elements_exec(&entities);
    let text = string_of(&closed);
    let no_frames = remove_iframes(text.as_str());
    remove_images(no_frames.as_str())
}

} // verus!
