//! Structural comparison of JSON texts, through serde_json.

use vstd::prelude::*;

verus! {

/// What structural comparison of two JSON texts gives: `None` when either text is
/// not valid JSON, otherwise whether the two parsed values are equal (so key order
/// and whitespace do not matter).
pub uninterp spec fn json_compare(a: Seq<char>, b: Seq<char>) -> Option<bool>;

/// Parses both texts with `serde_json::from_str::<serde_json::Value>` and compares the
/// values with `==`; the result is named `json_compare` of the two texts. `Value` is
/// `Eq` (JSON holds no NaN), so a text that parses compares equal to itself.
#[verifier::external_body]
pub(crate) fn compare_json(a: &str, b: &str) -> (r: Option<bool>)
    ensures
        r == json_compare(a@, b@),
        a@ == b@ && r is Some ==> r == Some(true),
{
    match (serde_json::from_str::<serde_json::Value>(a), serde_json::from_str::<serde_json::Value>(b)) {
        (Ok(x), Ok(y)) => Some(x == y),
        _ => None,
    }
}

} // verus!

verus! {

/// What setting a value in a JSON text gives: the text parsed with `serde_json`, the
/// value at the JSON pointer (RFC 6901, as `Value::pointer_mut` finds it) replaced by
/// the given string, and the result written with `serde_json::to_string`. `None` when
/// the text is not JSON or nothing is at the pointer.
pub uninterp spec fn json_pointer_set(text: Seq<char>, pointer: Seq<char>, value: Seq<char>) -> Option<Seq<char>>;

/// Sets the value at a JSON pointer to a string, through serde_json; the result is
/// named `json_pointer_set` of the arguments.
#[verifier::external_body]
pub(crate) fn set_json_pointer(text: &str, pointer: &str, value: &str) -> (r: Option<String>)
    ensures
        match r {
            Some(t) => json_pointer_set(text@, pointer@, value@) == Some(t@),
            None => json_pointer_set(text@, pointer@, value@) is None,
        },
{
    let mut root: serde_json::Value = serde_json::from_str(text).ok()?;
    let slot = root.pointer_mut(pointer)?;
    *slot = serde_json::Value::String(value.to_owned());
    serde_json::to_string(&root).ok()
}

/// A path segment as a JSON pointer token: `~` written `~0` and `/` written `~1`.
pub open spec fn escape_token(s: Seq<char>) -> Seq<char>
    decreases s.len(),
{
    if s.len() == 0 {
        s
    } else {
        let head = if s[0] == '~' {
            seq!['~', '0']
        } else if s[0] == '/' {
            seq!['~', '1']
        } else {
            seq![s[0]]
        };
        head + escape_token(s.drop_first())
    }
}

/// The JSON pointer of a list of field names.
pub open spec fn pointer_of(segments: Seq<Seq<char>>) -> Seq<char>
    decreases segments.len(),
{
    if segments.len() == 0 {
        Seq::empty()
    } else {
        pointer_of(segments.drop_last()) + seq!['/'] + escape_token(segments.last())
    }
}

/// The JSON pointer of a path such as `$.user.password`: `$.` followed by non-empty
/// field names separated by `.`; `None` for any other path.
pub open spec fn path_pointer(path: Seq<char>) -> Option<Seq<char>> {
    if path.len() >= 2 && path[0] == '$' && path[1] == '.' {
        let segments = crate::url_parts::split_on(path.skip(2), '.');
        if forall|i: int| 0 <= i < segments.len() ==> (#[trigger] segments[i]).len() > 0 {
            Some(pointer_of(segments))
        } else {
            None
        }
    } else {
        None
    }
}

/// Appends a segment's pointer token.
fn push_token(out: &mut Vec<char>, seg: &Vec<char>)
    ensures
        final(out)@ == old(out)@ + escape_token(seg@),
{
    let ghost start = out@;
    let mut i: usize = 0;
    assert(seg@.skip(0) =~= seg@);
    while i < seg.len()
        invariant
            i <= seg@.len(),
            start + escape_token(seg@) == out@ + escape_token(seg@.skip(i as int)),
        decreases seg.len() - i,
    {
        let ghost rest = seg@.skip(i as int);
        assert(rest.drop_first() =~= seg@.skip(i + 1));
        let c = seg[i];
        if c == '~' {
            out.push('~');
            out.push('0');
        } else if c == '/' {
            out.push('~');
            out.push('1');
        } else {
            out.push(c);
        }
        i = i + 1;
        assert(start + escape_token(seg@) =~= out@ + escape_token(seg@.skip(i as int)));
    }
    assert(escape_token(seg@.skip(i as int)) =~= Seq::<char>::empty());
    assert(out@ =~= start + escape_token(seg@));
}

/// The JSON pointer of a path (see `path_pointer`).
pub fn json_path_pointer(path: &str) -> (r: Option<String>)
    ensures
        match r {
            Some(p) => path_pointer(path@) == Some(p@),
            None => path_pointer(path@) is None,
        },
{
    let pv = crate::text::chars_of(path);
    if pv.len() < 2 || pv[0] != '$' || pv[1] != '.' {
        return None;
    }
    let mut rest: Vec<char> = Vec::new();
    let mut i: usize = 2;
    while i < pv.len()
        invariant
            2 <= i <= pv@.len(),
            rest@ == pv@.subrange(2, i as int),
        decreases pv.len() - i,
    {
        rest.push(pv[i]);
        i = i + 1;
        assert(rest@ =~= pv@.subrange(2, i as int));
    }
    assert(rest@ =~= path@.skip(2));
    let segs = crate::url_parts::split_chars(rest.as_slice(), '.');
    let ghost segments = crate::url_parts::split_on(path@.skip(2), '.');
    assert(segs@.map_values(|v: Vec<char>| v@) == segments);
    let mut out: Vec<char> = Vec::new();
    let mut k: usize = 0;
    assert(segments.take(0) =~= Seq::<Seq<char>>::empty());
    while k < segs.len()
        invariant
            k <= segs@.len(),
            segs@.map_values(|v: Vec<char>| v@) == segments,
            segments == crate::url_parts::split_on(path@.skip(2), '.'),
            path@.len() >= 2 && path@[0] == '$' && path@[1] == '.',
            out@ == pointer_of(segments.take(k as int)),
            forall|j: int| 0 <= j < k ==> (#[trigger] segments[j]).len() > 0,
        decreases segs.len() - k,
    {
        assert(segments[k as int] == segs@[k as int]@);
        if segs[k].len() == 0 {
            assert(segments[k as int].len() == 0);
            return None;
        }
        out.push('/');
        push_token(&mut out, &segs[k]);
        assert(segments.take(k + 1).drop_last() =~= segments.take(k as int));
        k = k + 1;
    }
    assert(segments.take(k as int) =~= segments);
    Some(crate::text::string_from_chars(out.as_slice()))
}

/// A body after replacing the value at a JSON path: unchanged when there is no body,
/// the path is malformed, the body is not JSON, or nothing is at the path.
pub open spec fn json_path_replaced(body: Option<Seq<char>>, path: Seq<char>, replacement: Seq<char>) -> Option<
    Seq<char>,
> {
    match body {
        None => None,
        Some(t) => match path_pointer(path) {
            None => Some(t),
            Some(p) => match json_pointer_set(t, p, replacement) {
                Some(n) => Some(n),
                None => Some(t),
            },
        },
    }
}

/// Replaces the value at a JSON path in a body (see `json_path_replaced`).
pub fn replace_json_path(body: &Option<String>, path: &str, replacement: &str) -> (r: Option<String>)
    ensures
        crate::text::opt_view(r) == json_path_replaced(crate::text::opt_view(*body), path@, replacement@),
{
    match body {
        None => None,
        Some(t) => match json_path_pointer(path) {
            None => Some(t.clone()),
            Some(p) => match set_json_pointer(t.as_str(), p.as_str(), replacement) {
                Some(n) => Some(n),
                None => Some(t.clone()),
            },
        },
    }
}

} // verus!
