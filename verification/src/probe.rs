//! Response normalization: the probe result record, header-map
//! normalization, body snippets, title extraction, and request content-type
//! inference.
//!
//! The HTTP call itself is outside work; the library receives the raw
//! status, header pairs and body text and turns them into a well-formed
//! `ProbeResult`.

use vstd::prelude::*;

use crate::text::{
    chars_of,
    chars_eq,
    contains_at,
    lower_chars,
    lemma_lower_idempotent,
    matches_at,
    ascii_lower,
    string_from_chars,
};

verus! {

/// One normalized probe response.
///
/// Invariant (`wf`): header keys are lower-case and unique; the body
/// snippet holds at most 1024 characters.
pub struct ProbeResult {
    pub url: String,
    pub status: u16,
    pub headers: Vec<(String, String)>,
    pub title: Option<String>,
    pub body_snippet: Option<String>,
}

/// The value of the first pair with the given key, if any. With unique keys
/// this is the value of the key.
pub open spec fn lookup(h: Seq<(Seq<char>, Seq<char>)>, key: Seq<char>) -> Option<Seq<char>>
    decreases h.len(),
{
    if h.len() == 0 {
        None
    } else if h[0].0 == key {
        Some(h[0].1)
    } else {
        lookup(h.drop_first(), key)
    }
}

/// No two pairs share a key.
pub open spec fn keys_unique(h: Seq<(Seq<char>, Seq<char>)>) -> bool {
    forall|i: int, j: int| 0 <= i < j < h.len() ==> h[i].0 != h[j].0
}

/// Every key is already in lower case.
pub open spec fn keys_lowercase(h: Seq<(Seq<char>, Seq<char>)>) -> bool {
    forall|i: int| 0 <= i < h.len() ==> h[i].0 == lower_chars(h[i].0)
}

/// The value of the last raw pair whose lower-cased key equals `key`:
/// what a map built by repeated insertion holds after duplicates
/// ("last value wins").
pub open spec fn last_lowered_value(raw: Seq<(Seq<char>, Seq<char>)>, key: Seq<char>) -> Option<
    Seq<char>,
>
    decreases raw.len(),
{
    if raw.len() == 0 {
        None
    } else if lower_chars(raw.last().0) == key {
        Some(raw.last().1)
    } else {
        last_lowered_value(raw.drop_last(), key)
    }
}

impl ProbeResult {
    /// The header pairs as character sequences.
    pub open spec fn headers_seq(&self) -> Seq<(Seq<char>, Seq<char>)> {
        self.headers.deep_view()
    }

    /// The value stored under a (lower-case) header name.
    pub open spec fn spec_header(&self, key: Seq<char>) -> Option<Seq<char>> {
        lookup(self.headers_seq(), key)
    }

    /// Well-formedness: lower-case unique header keys, snippet at most 1024
    /// characters.
    pub open spec fn wf(&self) -> bool {
        &&& keys_unique(self.headers_seq())
        &&& keys_lowercase(self.headers_seq())
        &&& (self.body_snippet matches Some(b) ==> b@.len() <= 1024)
    }

    /// Looks a header up by its exact (lower-case) name.
    pub fn header(&self, key: &str) -> (r: Option<&String>)
        ensures
            match r {
                Some(v) => self.spec_header(key@) == Some(v@),
                None => self.spec_header(key@) is None,
            },
    {
        let key_chars = chars_of(key);
        let mut i: usize = 0;
        proof {
            assert(self.headers_seq().skip(0) =~= self.headers_seq());
        }
        while i < self.headers.len()
            invariant
                i <= self.headers.len(),
                key_chars@ == key@,
                lookup(self.headers_seq(), key@) == lookup(
                    self.headers_seq().skip(i as int),
                    key@,
                ),
            decreases self.headers.len() - i,
        {
            let ghost rest = self.headers_seq().skip(i as int);
            proof {
                assert(rest[0] == self.headers_seq()[i as int]);
                assert(rest.drop_first() =~= self.headers_seq().skip(i + 1));
            }
            let name_chars = chars_of(self.headers[i].0.as_str());
            if chars_eq(&name_chars, &key_chars) {
                return Some(&self.headers[i].1);
            }
            i = i + 1;
        }
        proof {
            assert(self.headers_seq().skip(i as int) =~= Seq::<(Seq<char>, Seq<char>)>::empty());
        }
        None
    }
}

/// Collects raw header pairs into a normalized header map: keys lower-cased,
/// duplicate keys collapsed with the last value winning, first-seen key
/// order kept.
pub fn normalize_headers(raw: &Vec<(String, String)>) -> (r: Vec<(String, String)>)
    ensures
        keys_unique(r.deep_view()),
        keys_lowercase(r.deep_view()),
        forall|key: Seq<char>| lookup(r.deep_view(), key) == last_lowered_value(
            raw.deep_view(),
            key,
        ),
{
    let mut out: Vec<(String, String)> = Vec::new();
    let mut i: usize = 0;
    proof {
        assert(raw.deep_view().take(0) =~= Seq::<(Seq<char>, Seq<char>)>::empty());
    }
    while i < raw.len()
        invariant
            i <= raw.len(),
            keys_unique(out.deep_view()),
            keys_lowercase(out.deep_view()),
            forall|key: Seq<char>| lookup(out.deep_view(), key) == last_lowered_value(
                raw.deep_view().take(i as int),
                key,
            ),
        decreases raw.len() - i,
    {
        let key_chars = chars_of(raw[i].0.as_str());
        let lowered = string_from_chars(&ascii_lower(&key_chars));
        let value = raw[i].1.clone();
        proof {
            assert(raw.deep_view()[i as int] == (raw@[i as int].0@, raw@[i as int].1@));
            assert(lowered@ == lower_chars(raw.deep_view()[i as int].0));
            assert(value@ == raw.deep_view()[i as int].1);
        }
        let mut j: usize = 0;
        let mut found = false;
        while j < out.len() && !found
            invariant
                j <= out.len(),
                found ==> j < out.len() && out.deep_view()[j as int].0 == lowered@,
                !found ==> forall|k: int| 0 <= k < j ==> out.deep_view()[k].0 != lowered@,
            decreases out.len() - j + (if found {
                0int
            } else {
                1int
            }),
        {
            if out[j].0 == lowered {
                found = true;
            } else {
                j = j + 1;
            }
        }
        let ghost before = out.deep_view();
        if found {
            let kept_key = out[j].0.clone();
            out.set(j, (kept_key, value));
            proof {
                assert(out.deep_view() =~= before.update(
                    j as int,
                    (before[j as int].0, value@),
                ));
                assert(forall|k: int|
                    0 <= k < out.deep_view().len() ==> out.deep_view()[k].0 == before[k].0);
            }
        } else {
            out.push((lowered, value));
            proof {
                lemma_lower_idempotent(key_chars@);
                assert(out.deep_view() =~= before.push((lowered@, value@)));
            }
        }
        proof {
            let rdv = raw.deep_view();
            assert forall|key: Seq<char>| lookup(out.deep_view(), key) == last_lowered_value(
                rdv.take(i + 1),
                key,
            ) by {
                assert(rdv.take(i + 1).last() == rdv[i as int]);
                assert(rdv.take(i + 1).drop_last() =~= rdv.take(i as int));
                if found {
                    lemma_lookup_set_value(before, j as int, value@, key);
                } else {
                    lemma_lookup_absent(before, lowered@);
                    lemma_lookup_push(before, lowered@, value@, key);
                }
            }
        }
        i = i + 1;
    }
    proof {
        assert(raw.deep_view().take(i as int) =~= raw.deep_view());
    }
    out
}

/// The opening tag that title extraction searches for.
pub open spec fn title_open() -> Seq<char> {
    "<title>"@
}

/// The closing tag that ends a title.
pub open spec fn title_close() -> Seq<char> {
    "</title>"@
}

/// A title match starting at `i` and closing at `j`: an opening tag at `i`,
/// the nearest closing tag at `j`, and no newline between them. This is the
/// meaning of a lazy `<title>(.*?)</title>` search at position `i`, whose
/// dot does not cross line breaks.
pub open spec fn title_found(s: Seq<char>, i: int, j: int) -> bool {
    &&& contains_at(s, i, title_open())
    &&& i + 7 <= j
    &&& contains_at(s, j, title_close())
    &&& forall|k: int| i + 7 <= k < j ==> s[k] != '\n'
    &&& forall|k: int| i + 7 <= k < j ==> !contains_at(s, k, title_close())
}

/// `r` is the leftmost title of `s`, or there is none: the meaning of a
/// single unanchored lazy title search over the whole body.
pub open spec fn is_extracted_title(s: Seq<char>, r: Option<Seq<char>>) -> bool {
    match r {
        None => forall|i: int, j: int| !title_found(s, i, j),
        Some(t) => exists|i: int, j: int|
            {
                &&& #[trigger] title_found(s, i, j)
                &&& t == s.subrange(i + 7, j)
                &&& forall|i2: int, j2: int| title_found(s, i2, j2) ==> i <= i2
            },
    }
}

/// Extracts the leftmost title of the body, if one is there.
pub fn extract_title(s: &Vec<char>) -> (r: Option<Vec<char>>)
    ensures
        is_extracted_title(s@, r.deep_view()),
{
    proof {
        reveal_strlit("<title>");
        reveal_strlit("</title>");
    }
    if s.len() < 15 {
        proof {
            assert forall|i: int, j: int| !title_found(s@, i, j) by {
                if title_found(s@, i, j) {
                    assert(contains_at(s@, i, title_open()));
                    assert(contains_at(s@, j, title_close()));
                }
            }
        }
        return None;
    }
    let open_tag = chars_of("<title>");
    let close_tag = chars_of("</title>");
    let mut i: usize = 0;
    while i <= s.len() - 7
        invariant
            s@.len() >= 15,
            open_tag@ == title_open(),
            close_tag@ == title_close(),
            title_open().len() == 7,
            title_close().len() == 8,
            i <= s@.len() - 7 + 1,
            forall|i2: int, j2: int| i2 < i ==> !title_found(s@, i2, j2),
        decreases s.len() - i,
    {
        if matches_at(s, i, &open_tag) {
            // Scan for the nearest closing tag; a newline before it kills
            // the match at this start position.
            let mut k: usize = i + 7;
            let mut found_close = false;
            loop
                invariant_except_break
                    i + 7 <= k <= s@.len(),
                    !found_close,
                invariant
                    s@.len() >= 15,
                    close_tag@ == title_close(),
                    title_open().len() == 7,
                    title_close().len() == 8,
                    contains_at(s@, i as int, title_open()),
                    forall|k2: int| i + 7 <= k2 < k ==> s@[k2] != '\n',
                    forall|k2: int| i + 7 <= k2 < k ==> !contains_at(s@, k2, title_close()),
                ensures
                    found_close ==> i + 7 <= k && k + 8 <= s@.len() && title_found(
                        s@,
                        i as int,
                        k as int,
                    ),
                    !found_close ==> forall|j: int| !title_found(s@, i as int, j),
                decreases s.len() - k,
            {
                if s.len() - k < 8 {
                    // No room for a closing tag at or after k.
                    proof {
                        assert forall|j: int| !title_found(s@, i as int, j) by {
                            if title_found(s@, i as int, j) {
                                assert(contains_at(s@, j, title_close()));
                                assert(j + 8 <= s@.len());
                            }
                        }
                    }
                    break;
                }
                if matches_at(s, k, &close_tag) {
                    found_close = true;
                    proof {
                        assert(title_found(s@, i as int, k as int));
                    }
                    break;
                }
                if s[k] == '\n' {
                    proof {
                        assert forall|j: int| !title_found(s@, i as int, j) by {
                            if title_found(s@, i as int, j) {
                                if j < k {
                                    assert(contains_at(s@, j, title_close()));
                                } else {
                                    assert(s@[k as int] != '\n');
                                }
                            }
                        }
                    }
                    break;
                }
                k = k + 1;
            }
            if found_close {
                // Closing tag found at k: copy the content out.
                let mut content: Vec<char> = Vec::new();
                let mut p: usize = i + 7;
                while p < k
                    invariant
                        i + 7 <= p <= k <= s@.len(),
                        content@ =~= s@.subrange(i + 7, p as int),
                    decreases k - p,
                {
                    content.push(s[p]);
                    assert(content@ =~= s@.subrange(i + 7, p + 1));
                    p = p + 1;
                }
                proof {
                    assert(title_found(s@, i as int, k as int));
                    assert(content@ == s@.subrange(i + 7, k as int));
                    assert forall|i2: int, j2: int|
                        title_found(s@, i2, j2) implies i as int <= i2 by {
                        if i2 < i {
                            assert(!title_found(s@, i2, j2));
                        }
                    }
                    assert(is_extracted_title(s@, Some(content@))) by {
                        assert(title_found(s@, i as int, k as int) && content@ == s@.subrange(
                            i + 7,
                            k as int,
                        ) && (forall|i2: int, j2: int|
                            title_found(s@, i2, j2) ==> i as int <= i2));
                    }
                    assert(Some(content).deep_view() == Some(content@));
                }
                return Some(content);
            }
            // No match starting at i.
            proof {
                assert forall|i2: int, j2: int| i2 < i + 1 implies !title_found(s@, i2, j2) by {
                    if i2 == i && title_found(s@, i2, j2) {
                        assert(title_found(s@, i as int, j2));
                    }
                }
            }
        } else {
            proof {
                assert forall|i2: int, j2: int| i2 < i + 1 implies !title_found(s@, i2, j2) by {
                    if i2 == i && title_found(s@, i2, j2) {
                        assert(contains_at(s@, i as int, title_open()));
                    }
                }
            }
        }
        i = i + 1;
    }
    proof {
        assert forall|i2: int, j2: int| !title_found(s@, i2, j2) by {
            if title_found(s@, i2, j2) {
                assert(contains_at(s@, i2, title_open()));
                assert(i2 + 7 <= s@.len());
            }
        }
    }
    None
}

/// The first 1024 characters of a non-empty body; nothing for an empty one.
pub open spec fn spec_snippet(body: Seq<char>) -> Option<Seq<char>> {
    if body.len() == 0 {
        None
    } else if body.len() <= 1024 {
        Some(body)
    } else {
        Some(body.take(1024))
    }
}

/// Takes the body snippet: the first 1024 characters, absent for an empty
/// body.
pub fn make_snippet(body: &Vec<char>) -> (r: Option<String>)
    ensures
        r.deep_view() == spec_snippet(body@),
        r matches Some(b) ==> b@.len() <= 1024,
{
    if body.len() == 0 {
        return None;
    }
    let mut out: Vec<char> = Vec::new();
    let mut i: usize = 0;
    while i < body.len() && i < 1024
        invariant
            i <= body.len(),
            i <= 1024,
            out@ =~= body@.take(i as int),
        decreases body.len() - i,
    {
        out.push(body[i]);
        assert(out@ =~= body@.take(i + 1));
        i = i + 1;
    }
    proof {
        if body@.len() <= 1024 {
            assert(body@.take(body@.len() as int) =~= body@);
        }
    }
    Some(string_from_chars(&out))
}

/// The content type inferred from the shape of a request body: JSON if it
/// opens like a JSON document, a form encoding if it carries `=`, plain
/// text otherwise.
pub open spec fn spec_content_type(b: Seq<char>) -> Seq<char> {
    if b.len() > 0 && (b[0] == '{' || b[0] == '[') {
        "application/json"@
    } else if exists|i: int| 0 <= i < b.len() && b[i] == '=' {
        "application/x-www-form-urlencoded"@
    } else {
        "text/plain"@
    }
}

/// Sniffs a request body's content type from its shape; best-effort, not
/// negotiation.
pub fn infer_content_type(body: &str) -> (r: &'static str)
    ensures
        r@ == spec_content_type(body@),
{
    let b = chars_of(body);
    if b.len() > 0 {
        let c0 = b[0];
        if c0 == '{' || c0 == '[' {
            return "application/json";
        }
    }
    let mut i: usize = 0;
    let mut has_eq = false;
    while i < b.len() && !has_eq
        invariant
            b@ == body@,
            i <= b@.len(),
            has_eq ==> i < b@.len() && b@[i as int] == '=',
            !has_eq ==> forall|k: int| 0 <= k < i ==> b@[k] != '=',
        decreases b.len() - i + (if has_eq {
            0int
        } else {
            1int
        }),
    {
        if b[i] == '=' {
            has_eq = true;
        } else {
            i = i + 1;
        }
    }
    if has_eq {
        "application/x-www-form-urlencoded"
    } else {
        "text/plain"
    }
}

/// Normalizes one raw HTTP response into a `ProbeResult`: header keys
/// lower-cased with the last duplicate winning, the leftmost title
/// extracted, and the body cut to a snippet of at most 1024 characters.
/// The caller hands an empty body for requests that carry none.
pub fn normalize_response(
    url: String,
    status: u16,
    raw_headers: &Vec<(String, String)>,
    body: &str,
) -> (r: ProbeResult)
    ensures
        r.wf(),
        r.url == url,
        r.status == status,
        forall|key: Seq<char>| r.spec_header(key) == last_lowered_value(
            raw_headers.deep_view(),
            key,
        ),
        is_extracted_title(body@, r.title.deep_view()),
        r.body_snippet.deep_view() == spec_snippet(body@),
{
    let headers = normalize_headers(raw_headers);
    let body_chars = chars_of(body);
    let title = match extract_title(&body_chars) {
        Some(t) => {
            let ts = string_from_chars(&t);
            proof {
                assert(Some(ts).deep_view() == Some(t).deep_view());
            }
            Some(ts)
        },
        None => None,
    };
    let body_snippet = make_snippet(&body_chars);
    ProbeResult { url, status, headers, title, body_snippet }
}

/// A key that no pair carries looks up to nothing.
proof fn lemma_lookup_absent(h: Seq<(Seq<char>, Seq<char>)>, key: Seq<char>)
    requires
        forall|k: int| 0 <= k < h.len() ==> h[k].0 != key,
    ensures
        lookup(h, key) is None,
    decreases h.len(),
{
    if h.len() > 0 {
        lemma_lookup_absent(h.drop_first(), key);
    }
}

/// Updating the value at a position whose key has no earlier occurrence
/// changes the lookup of that key and nothing else.
proof fn lemma_lookup_set_value(h: Seq<(Seq<char>, Seq<char>)>, i: int, v: Seq<char>, key: Seq<
    char,
>)
    requires
        0 <= i < h.len(),
        forall|k: int| 0 <= k < i ==> h[k].0 != h[i].0,
    ensures
        lookup(h.update(i, (h[i].0, v)), key) == if key == h[i].0 {
            Some(v)
        } else {
            lookup(h, key)
        },
    decreases h.len(),
{
    let u = h.update(i, (h[i].0, v));
    if i == 0 {
        assert(u[0] == (h[0].0, v));
        if key == h[0].0 {
            assert(lookup(u, key) == Some(v));
        } else {
            assert(u.drop_first() =~= h.drop_first());
            assert(lookup(u, key) == lookup(u.drop_first(), key));
            assert(lookup(h, key) == lookup(h.drop_first(), key));
        }
    } else {
        lemma_lookup_set_value(h.drop_first(), i - 1, v, key);
        assert(u.drop_first() =~= h.drop_first().update(i - 1, (h[i].0, v)));
        assert(u[0] == h[0]);
        assert(h.drop_first()[i - 1] == h[i]);
        if key == h[0].0 {
            assert(lookup(u, key) == Some(u[0].1));
            assert(lookup(h, key) == Some(h[0].1));
        } else {
            assert(lookup(u, key) == lookup(u.drop_first(), key));
            assert(lookup(h, key) == lookup(h.drop_first(), key));
        }
    }
}

/// Pushing a fresh pair leaves every other key's lookup unchanged and gives
/// the new key its value where it was absent.
proof fn lemma_lookup_push(h: Seq<(Seq<char>, Seq<char>)>, key: Seq<char>, v: Seq<char>, k: Seq<
    char,
>)
    ensures
        lookup(h.push((key, v)), k) == if lookup(h, k) is Some {
            lookup(h, k)
        } else if k == key {
            Some(v)
        } else {
            None
        },
    decreases h.len(),
{
    let p = h.push((key, v));
    if h.len() == 0 {
        assert(p[0] == (key, v));
        assert(lookup(h, k) is None);
        if k == key {
            assert(lookup(p, k) == Some(v));
        } else {
            assert(p.drop_first() =~= Seq::<(Seq<char>, Seq<char>)>::empty());
            assert(lookup(p, k) == lookup(p.drop_first(), k));
        }
    } else {
        lemma_lookup_push(h.drop_first(), key, v, k);
        assert(p.drop_first() =~= h.drop_first().push((key, v)));
        assert(p[0] == h[0]);
        if k == h[0].0 {
            assert(lookup(p, k) == Some(p[0].1));
            assert(lookup(h, k) == Some(h[0].1));
        } else {
            assert(lookup(p, k) == lookup(p.drop_first(), k));
            assert(lookup(h, k) == lookup(h.drop_first(), k));
        }
    }
}

} // verus!
