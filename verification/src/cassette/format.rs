//! Cassette file formats, chosen by the file's extension.

use vstd::prelude::*;
use crate::text::{chars_of, owned};

verus! {

/// Index of the last `/` in `p`, or -1 when there is none.
pub open spec fn last_slash(p: Seq<char>) -> int
    decreases p.len(),
{
    if p.len() == 0 {
        -1
    } else if p.last() == '/' {
        p.len() - 1
    } else {
        last_slash(p.drop_last())
    }
}

/// `last_slash` is -1 or the index of a `/`, with no `/` after it.
pub proof fn lemma_last_slash(p: Seq<char>)
    ensures
        -1 <= last_slash(p) < p.len(),
        last_slash(p) >= 0 ==> p[last_slash(p)] == '/',
        forall|j: int| last_slash(p) < j < p.len() ==> p[j] != '/',
    decreases p.len(),
{
    if p.len() > 0 && p.last() != '/' {
        lemma_last_slash(p.drop_last());
        assert forall|j: int| last_slash(p) < j < p.len() implies p[j] != '/' by {
            if j < p.len() - 1 {
                assert(p[j] == p.drop_last()[j]);
            }
        }
    }
}

/// The last component of a path as std's `Path::components` yields it on Unix:
/// repeated and trailing `/` are ignored and `.` components are skipped.
pub open spec fn final_component(p: Seq<char>) -> Option<Seq<char>>
    decreases p.len(),
{
    if p.len() == 0 {
        None
    } else if p.last() == '/' {
        final_component(p.drop_last())
    } else {
        let k = last_slash(p);
        if p.subrange(k + 1, p.len() as int) == seq!['.'] {
            proof {
                lemma_last_slash(p);
            }
            final_component(p.subrange(0, k + 1))
        } else {
            Some(p.subrange(k + 1, p.len() as int))
        }
    }
}

/// The file name of a path (std's `Path::file_name`): its final component,
/// unless that is `..`.
pub open spec fn file_name(p: Seq<char>) -> Option<Seq<char>> {
    match final_component(p) {
        Some(c) => if c == seq!['.', '.'] { None } else { Some(c) },
        None => None,
    }
}

/// Index of the last `.` in `s`, or -1.
pub open spec fn last_dot(s: Seq<char>) -> int
    decreases s.len(),
{
    if s.len() == 0 {
        -1
    } else if s.last() == '.' {
        s.len() - 1
    } else {
        last_dot(s.drop_last())
    }
}

/// `last_dot` is -1 or an index into `s`.
pub proof fn lemma_last_dot_bound(s: Seq<char>)
    ensures
        -1 <= last_dot(s) < s.len(),
    decreases s.len(),
{
    if s.len() > 0 && s.last() != '.' {
        lemma_last_dot_bound(s.drop_last());
    }
}

/// The extension of a path (std's `Path::extension`): what follows the last `.`
/// of the file name, unless the name has no `.` or its only `.` is its first character.
pub open spec fn path_extension(p: Seq<char>) -> Option<Seq<char>> {
    match file_name(p) {
        Some(name) => {
            let d = last_dot(name);
            if d <= 0 {
                None
            } else {
                Some(name.subrange(d + 1, name.len() as int))
            }
        },
        None => None,
    }
}

/// Start and end of the final component of `p` (see `final_component`).
fn final_component_bounds(p: &Vec<char>) -> (r: Option<(usize, usize)>)
    ensures
        match r {
            Some((s, e)) => s <= e <= p@.len() && final_component(p@) == Some(p@.subrange(s as int, e as int)),
            None => final_component(p@) is None,
        },
{
    let mut end: usize = p.len();
    assert(p@.subrange(0, end as int) =~= p@);
    loop
        invariant
            end <= p.len(),
            final_component(p@) == final_component(p@.subrange(0, end as int)),
        decreases end,
    {
        let ghost q = p@.subrange(0, end as int);
        if end == 0 {
            return None;
        }
        if p[end - 1] == '/' {
            assert(q.drop_last() =~= p@.subrange(0, end - 1));
            end = end - 1;
        } else {
            let mut k: usize = end;
            while k > 0 && p[k - 1] != '/'
                invariant
                    k <= end,
                    end <= p.len(),
                    q == p@.subrange(0, end as int),
                    forall|j: int| k <= j < end ==> p@[j] != '/',
                decreases k,
            {
                k = k - 1;
            }
            proof {
                lemma_last_slash(q);
                if k > 0 {
                    assert(q[k - 1] == '/');
                }
                let ls = last_slash(q);
                assert(ls == k - 1) by {
                    if ls < k - 1 {
                        assert(q[k - 1] == '/');
                    }
                    if ls > k - 1 {
                        assert(q[ls] == p@[ls]);
                    }
                }
            }
            assert(q.subrange(k as int, end as int) =~= p@.subrange(k as int, end as int));
            if end - k == 1 && p[k] == '.' {
                assert(q.subrange(k as int, end as int) =~= seq!['.']);
                assert(q.subrange(0, k as int) =~= p@.subrange(0, k as int));
                end = k;
            } else {
                proof {
                    if q.subrange(k as int, end as int) == seq!['.'] {
                        assert(q.subrange(k as int, end as int)[0] == '.');
                    }
                }
                return Some((k, end));
            }
        }
    }
}

/// Index of the last `.` in `s[start..end]`, relative to `start`.
fn last_dot_in(p: &Vec<char>, start: usize, end: usize) -> (r: Option<usize>)
    requires
        start <= end <= p@.len(),
    ensures
        match r {
            Some(d) => last_dot(p@.subrange(start as int, end as int)) == d as int,
            None => last_dot(p@.subrange(start as int, end as int)) == -1,
        },
{
    let mut i: usize = end;
    while i > start
        invariant
            start <= i <= end,
            end <= p@.len(),
            last_dot(p@.subrange(start as int, end as int)) == last_dot(p@.subrange(start as int, i as int)),
        decreases i,
    {
        let ghost s = p@.subrange(start as int, i as int);
        if p[i - 1] == '.' {
            return Some(i - 1 - start);
        }
        assert(s.drop_last() =~= p@.subrange(start as int, i - 1));
        i = i - 1;
    }
    None
}

/// The extension of a path, as std's `Path::extension` computes it on Unix.
pub fn extension_of(path: &str) -> (r: Option<String>)
    ensures
        match r {
            Some(e) => path_extension(path@) == Some(e@),
            None => path_extension(path@) is None,
        },
{
    let p = chars_of(path);
    match final_component_bounds(&p) {
        None => None,
        Some((s, e)) => {
            let ghost name = p@.subrange(s as int, e as int);
            if e - s == 2 && p[s] == '.' && p[s + 1] == '.' {
                assert(name =~= seq!['.', '.']);
                return None;
            }
            assert(name != seq!['.', '.']) by {
                if name == seq!['.', '.'] {
                    assert(name.len() == 2 && name[0] == '.' && name[1] == '.');
                }
            }
            match last_dot_in(&p, s, e) {
                None => None,
                Some(d) => {
                    proof {
                        lemma_last_dot_bound(name);
                    }
                    if d == 0 {
                        None
                    } else {
                        let mut out: Vec<char> = Vec::new();
                        let mut i: usize = s + d + 1;
                        while i < e
                            invariant
                                s + d + 1 <= i <= e,
                                e <= p@.len(),
                                out@ == p@.subrange(s + d + 1, i as int),
                            decreases e - i,
                        {
                            out.push(p[i]);
                            i = i + 1;
                            assert(out@ =~= p@.subrange(s + d + 1, i as int));
                        }
                        assert(name.subrange(d + 1, name.len() as int) =~= out@);
                        Some(crate::text::string_from_chars(out.as_slice()))
                    }
                },
            }
        },
    }
}

/// A cassette file format.
#[derive(Debug, Clone, Copy, PartialEq, Eq, Structural)]
pub enum Format {
    /// JSON (the default).
    Json,
    /// YAML.
    Yaml,
}

impl Default for Format {
    fn default() -> (f: Self)
        ensures
            f == Format::Json,
    {
        Format::Json
    }
}

/// The format a path's extension selects: `yaml` and `yml` give YAML, anything else JSON.
pub open spec fn format_of_path(p: Seq<char>) -> Format {
    match path_extension(p) {
        Some(e) => if e == "yaml"@ || e == "yml"@ { Format::Yaml } else { Format::Json },
        None => Format::Json,
    }
}

/// The conventional extension of a format.
pub open spec fn format_extension(f: Format) -> Seq<char> {
    match f {
        Format::Json => "json"@,
        Format::Yaml => "yaml"@,
    }
}

/// A sequence with no `/` has no last slash.
proof fn lemma_no_slash(p: Seq<char>)
    requires
        forall|i: int| 0 <= i < p.len() ==> p[i] != '/',
    ensures
        last_slash(p) == -1,
    decreases p.len(),
{
    if p.len() > 0 {
        lemma_no_slash(p.drop_last());
    }
}

/// The last dot of `a` followed by `.` and a dot-free `b` is the one after `a`.
proof fn lemma_last_dot_before(a: Seq<char>, b: Seq<char>)
    requires
        forall|i: int| 0 <= i < b.len() ==> b[i] != '.',
    ensures
        last_dot(a.push('.') + b) == a.len(),
    decreases b.len(),
{
    let s = a.push('.') + b;
    if b.len() == 0 {
        assert(s =~= a.push('.'));
    } else {
        assert(s.drop_last() =~= a.push('.') + b.drop_last());
        lemma_last_dot_before(a, b.drop_last());
    }
}

/// A file named with a format's conventional extension is read back in that format:
/// for a non-empty base name without `/`, `base.ext` selects the format of `ext`.
pub proof fn lemma_extension_selects_format(base: Seq<char>, f: Format)
    requires
        base.len() > 0,
        forall|i: int| 0 <= i < base.len() ==> base[i] != '/',
    ensures
        format_of_path(base.push('.') + format_extension(f)) == f,
{
    reveal_strlit("json");
    reveal_strlit("yaml");
    reveal_strlit("yml");
    let e = format_extension(f);
    let p = base.push('.') + e;
    assert(e.len() == 4);
    assert forall|i: int| 0 <= i < p.len() implies p[i] != '/' by {
        if i < base.len() {
            assert(p[i] == base[i]);
        }
    }
    lemma_no_slash(p);
    assert(p.last() == e[3]);
    assert(p.subrange(0, p.len() as int) =~= p);
    assert(p.subrange(0, p.len() as int) != seq!['.']) by {
        assert(p.len() != 1);
    }
    assert(final_component(p) == Some(p));
    assert(p != seq!['.', '.']) by {
        assert(p.len() != 2);
    }
    lemma_last_dot_before(base, e);
    assert(p.subrange(base.len() as int + 1, p.len() as int) =~= e);
    assert(e != "yml"@) by {
        assert(e.len() != "yml"@.len());
    }
    if f == Format::Json {
        assert(e != "yaml"@) by {
            assert(e[0] != "yaml"@[0]);
        }
    }
}

impl Format {
    /// Detects the format from a path's extension.
    pub fn from_path(path: &str) -> (f: Format)
        ensures
            f == format_of_path(path@),
    {
        proof {
            reveal_strlit("yaml");
            reveal_strlit("yml");
        }
        match extension_of(path) {
            Some(e) => {
                if crate::text::str_eq(e.as_str(), "yaml") || crate::text::str_eq(e.as_str(), "yml") {
                    Format::Yaml
                } else {
                    Format::Json
                }
            },
            None => Format::Json,
        }
    }

    /// The conventional file extension.
    pub fn extension(&self) -> (s: &'static str)
        ensures
            s@ == format_extension(*self),
    {
        match self {
            Format::Json => "json",
            Format::Yaml => "yaml",
        }
    }

    /// The MIME type.
    pub fn mime_type(&self) -> (s: &'static str)
        ensures
            s@ == match *self {
                Format::Json => "application/json"@,
                Format::Yaml => "application/x-yaml"@,
            },
    {
        match self {
            Format::Json => "application/json",
            Format::Yaml => "application/x-yaml",
        }
    }

    /// Whether the format can be read and written: both are supported.
    pub fn is_available(&self) -> (b: bool)
        ensures
            b,
    {
        true
    }

    /// The format's display name, `JSON` or `YAML`.
    pub fn to_string(&self) -> (s: String)
        ensures
            s@ == match *self {
                Format::Json => "JSON"@,
                Format::Yaml => "YAML"@,
            },
    {
        match self {
            Format::Json => owned("JSON"),
            Format::Yaml => owned("YAML"),
        }
    }
}

} // verus!
