//! Which files the viewer can show, and stepping to the next or previous one
//! among the entries of a directory, in the order the directory lists them.
use vstd::prelude::*;

verus! {

/// Direction of a step through the files of a directory.
#[derive(Debug, Clone, Copy, PartialEq, Eq, Structural)]
pub enum StepDirection {
    Backward,
    Forward,
}

pub open spec fn is_separator(c: char) -> bool {
    c == '/' || c == '\\'
}

/// Index where the last component of a path starts: just after its last separator.
pub open spec fn name_start(p: Seq<char>) -> int
    decreases p.len(),
{
    if p.len() == 0 {
        0
    } else if is_separator(p.last()) {
        p.len() as int
    } else {
        name_start(p.drop_last())
    }
}

/// The path without what ends it but names nothing: trailing separators,
/// and `.` components after a separator.
pub open spec fn strip_trailing(p: Seq<char>) -> Seq<char>
    decreases p.len(),
{
    if p.len() > 0 && is_separator(p.last()) {
        strip_trailing(p.drop_last())
    } else if p.len() >= 2 && p.last() == '.' && is_separator(p[p.len() - 2]) {
        strip_trailing(p.drop_last())
    } else {
        p
    }
}

/// The text of the last component of a path.
pub open spec fn last_component(p: Seq<char>) -> Seq<char> {
    let q = strip_trailing(p);
    q.subrange(name_start(q), q.len() as int)
}

/// The file name of a path: its last component, unless that is empty, `.`
/// or `..`.
pub open spec fn file_name(p: Seq<char>) -> Option<Seq<char>> {
    let n = last_component(p);
    if n.len() == 0 || n == seq!['.'] || n == seq!['.', '.'] {
        None
    } else {
        Some(n)
    }
}

/// Index of the last `.` in `s`, or -1 where there is none.
pub open spec fn last_dot(s: Seq<char>) -> int
    decreases s.len(),
{
    if s.len() == 0 {
        -1
    } else if s.last() == '.' {
        s.len() - 1
    } else {
        last_dot(s.drop_last())
    }
}

/// What follows the last `.` of the file name; a path without a file name,
/// a name without a dot, or one whose only dot is its first character, has
/// no extension.
pub open spec fn extension(p: Seq<char>) -> Option<Seq<char>> {
    match file_name(p) {
        None => None,
        Some(n) => {
            let k = last_dot(n);
            if k <= 0 {
                None
            } else {
                Some(n.subrange(k + 1, n.len() as int))
            }
        },
    }
}

/// `c`, once an ASCII capital is lowered, is `e`.
pub open spec fn lowers_to(c: char, e: char) -> bool {
    if 'A' <= c && c <= 'Z' {
        c as u32 + 32 == e as u32
    } else {
        c == e
    }
}

/// `s` with its ASCII capitals lowered is `e`.
pub open spec fn lowers_to_text(s: Seq<char>, e: Seq<char>) -> bool {
    s.len() == e.len() && forall|i: int| 0 <= i < s.len() ==> lowers_to(#[trigger] s[i], e[i])
}

/// The extensions of the image formats the viewer opens.
pub open spec fn is_image_extension(x: Seq<char>) -> bool {
    lowers_to_text(x, "jpg"@) || lowers_to_text(x, "jpeg"@) || lowers_to_text(x, "png"@)
        || lowers_to_text(x, "gif"@) || lowers_to_text(x, "webp"@) || lowers_to_text(x, "tif"@)
        || lowers_to_text(x, "tiff"@) || lowers_to_text(x, "tga"@) || lowers_to_text(x, "dds"@)
        || lowers_to_text(x, "bmp"@) || lowers_to_text(x, "ico"@) || lowers_to_text(x, "hdr"@)
        || lowers_to_text(x, "pbm"@) || lowers_to_text(x, "pam"@) || lowers_to_text(x, "ppm"@)
        || lowers_to_text(x, "pgm"@) || lowers_to_text(x, "ff"@)
}

/// A path names a file the viewer can open: its extension, in any ASCII case,
/// is one of the image extensions.
pub open spec fn compatible(p: Seq<char>) -> bool {
    extension(p) is Some && is_image_extension(extension(p)->Some_0)
}

/// Where the last component of `p` ends, once trailing separators and `.`
/// components are set aside.
fn component_end(p: &str) -> (e: usize)
    ensures
        e <= p@.len(),
        strip_trailing(p@) == p@.subrange(0, e as int),
{
    let n = p.unicode_len();
    let mut e: usize = n;
    assert(p@.subrange(0, n as int) =~= p@);
    while e > 0
        invariant
            n == p@.len(),
            e <= n,
            strip_trailing(p@.subrange(0, e as int)) == strip_trailing(p@),
        decreases e,
    {
        let c = p.get_char(e - 1);
        let ghost q = p@.subrange(0, e as int);
        assert(q.drop_last() =~= p@.subrange(0, e - 1));
        if c == '/' || c == '\\' {
            e = e - 1;
        } else if c == '.' && e >= 2 && (p.get_char(e - 2) == '/' || p.get_char(e - 2) == '\\') {
            assert(q[q.len() - 2] == p@[e - 2]);
            e = e - 1;
        } else {
            if e >= 2 {
                assert(q[q.len() - 2] == p@[e - 2]);
            }
            return e;
        }
    }
    e
}

/// Where the file name of `p` starts and ends, and where its extension
/// starts if it has one; none where `p` has no file name.
fn split_name(p: &str) -> (r: Option<(usize, usize, Option<usize>)>)
    ensures
        r is None <==> file_name(p@) is None,
        r matches Some((s, e, d)) ==> {
            &&& s <= e <= p@.len()
            &&& file_name(p@) == Some(p@.subrange(s as int, e as int))
            &&& (extension(p@) is Some <==> d is Some)
            &&& d is Some ==> s < d->Some_0 <= e && extension(p@)->Some_0 == p@.subrange(
                d->Some_0 as int,
                e as int,
            )
        },
{
    let len = component_end(p);
    let ghost q = p@.subrange(0, len as int);
    let mut start: usize = 0;
    let mut dot: Option<usize> = None;
    let mut i: usize = 0;
    while i < len
        invariant
            len <= p@.len(),
            q == p@.subrange(0, len as int),
            i <= len,
            start <= i,
            start == name_start(q.subrange(0, i as int)),
            dot is None <==> last_dot(q.subrange(start as int, i as int)) == -1,
            dot is Some ==> dot->Some_0 == start + last_dot(q.subrange(start as int, i as int)),
            -1 <= last_dot(q.subrange(start as int, i as int)) < i - start,
        decreases len - i,
    {
        let c = p.get_char(i);
        assert(q[i as int] == c);
        assert(q.subrange(0, i + 1).drop_last() =~= q.subrange(0, i as int));
        assert(q.subrange(start as int, i + 1).drop_last() =~= q.subrange(start as int, i as int));
        if c == '/' || c == '\\' {
            start = i + 1;
            dot = None;
        } else if c == '.' {
            dot = Some(i);
        }
        i = i + 1;
    }
    assert(q.subrange(0, len as int) =~= q);
    let ghost n = last_component(p@);
    assert(n =~= p@.subrange(start as int, len as int));
    let k = len - start;
    if k == 0 {
        return None;
    }
    let c0 = p.get_char(start);
    assert(n[0] == c0);
    if k == 1 && c0 == '.' {
        assert(n =~= seq!['.']);
        return None;
    }
    if k == 2 && c0 == '.' {
        let c1 = p.get_char(start + 1);
        assert(n[1] == c1);
        if c1 == '.' {
            assert(n =~= seq!['.', '.']);
            return None;
        }
    }
    assert(file_name(p@) == Some(n));
    match dot {
        Some(d) => {
            if d > start {
                assert(n.subrange(d - start + 1, n.len() as int) =~= p@.subrange(d + 1, len as int));
                Some((start, len, Some(d + 1)))
            } else {
                Some((start, len, None))
            }
        },
        None => Some((start, len, None)),
    }
}

/// Whether `p` from `from` to `to`, with its ASCII capitals lowered, is `e`.
fn lowers_to_from(p: &str, from: usize, to: usize, e: &str) -> (r: bool)
    requires
        from <= to <= p@.len(),
    ensures
        r == lowers_to_text(p@.subrange(from as int, to as int), e@),
{
    let n = e.unicode_len();
    let ghost x = p@.subrange(from as int, to as int);
    if to - from != n {
        return false;
    }
    let mut i: usize = 0;
    while i < n
        invariant
            n == e@.len() == x.len(),
            to <= p@.len(),
            from + n == to,
            x == p@.subrange(from as int, to as int),
            i <= n,
            forall|j: int| 0 <= j < i ==> lowers_to(#[trigger] x[j], e@[j]),
        decreases n - i,
    {
        let c = p.get_char(from + i);
        let d = e.get_char(i);
        assert(x[i as int] == c);
        let ok = if 'A' <= c && c <= 'Z' {
            c as u32 + 32 == d as u32
        } else {
            c == d
        };
        if !ok {
            return false;
        }
        i = i + 1;
    }
    true
}

/// Whether the viewer can open the file at `path`, judged by its extension.
pub fn is_compatible_file(path: &str) -> (r: bool)
    ensures
        r == compatible(path@),
{
    match split_name(path) {
        None => false,
        Some((_, _, None)) => false,
        Some((_, t, Some(k))) => {
            lowers_to_from(path, k, t, "jpg") || lowers_to_from(path, k, t, "jpeg")
                || lowers_to_from(path, k, t, "png") || lowers_to_from(path, k, t, "gif")
                || lowers_to_from(path, k, t, "webp") || lowers_to_from(path, k, t, "tif")
                || lowers_to_from(path, k, t, "tiff") || lowers_to_from(path, k, t, "tga")
                || lowers_to_from(path, k, t, "dds") || lowers_to_from(path, k, t, "bmp")
                || lowers_to_from(path, k, t, "ico") || lowers_to_from(path, k, t, "hdr")
                || lowers_to_from(path, k, t, "pbm") || lowers_to_from(path, k, t, "pam")
                || lowers_to_from(path, k, t, "ppm") || lowers_to_from(path, k, t, "pgm")
                || lowers_to_from(path, k, t, "ff")
        },
    }
}

/// The entries, in their order, whose names the viewer can open.
pub open spec fn compatible_entries(s: Seq<String>) -> Seq<String>
    decreases s.len(),
{
    if s.len() == 0 {
        Seq::empty()
    } else if compatible(s.last()@) {
        compatible_entries(s.drop_last()).push(s.last())
    } else {
        compatible_entries(s.drop_last())
    }
}

/// Index of the first entry named `name`, or -1 where there is none.
pub open spec fn position_of(s: Seq<String>, name: Seq<char>) -> int
    decreases s.len(),
{
    if s.len() == 0 {
        -1
    } else if position_of(s.drop_last(), name) >= 0 {
        position_of(s.drop_last(), name)
    } else if s.last()@ == name {
        s.len() - 1
    } else {
        -1
    }
}

/// The file one step from `name` among `files`; none where `name` is not
/// among them or the step would leave the list.
pub open spec fn step_from(files: Seq<String>, name: Seq<char>, direction: StepDirection) -> Option<
    String,
> {
    let i = position_of(files, name);
    if i < 0 {
        None
    } else {
        match direction {
            StepDirection::Backward => if i > 0 {
                Some(files[i - 1])
            } else {
                None
            },
            StepDirection::Forward => if i + 1 < files.len() {
                Some(files[i + 1])
            } else {
                None
            },
        }
    }
}

proof fn lemma_position_bounds(s: Seq<String>, name: Seq<char>)
    ensures
        -1 <= position_of(s, name) < s.len(),
        position_of(s, name) >= 0 ==> s[position_of(s, name)]@ == name,
    decreases s.len(),
{
    if s.len() > 0 {
        lemma_position_bounds(s.drop_last(), name);
    }
}

/// The entries whose names the viewer can open, in the order given.
pub fn compatible_files(entries: &Vec<String>) -> (r: Vec<String>)
    ensures
        r@ == compatible_entries(entries@),
{
    let mut r: Vec<String> = Vec::new();
    let mut i: usize = 0;
    while i < entries.len()
        invariant
            i <= entries@.len(),
            r@ == compatible_entries(entries@.subrange(0, i as int)),
        decreases entries@.len() - i,
    {
        assert(entries@.subrange(0, i + 1).drop_last() =~= entries@.subrange(0, i as int));
        if is_compatible_file(entries[i].as_str()) {
            r.push(entries[i].clone());
        }
        i = i + 1;
    }
    assert(entries@.subrange(0, i as int) =~= entries@);
    r
}

fn find_name(files: &Vec<String>, name: &String) -> (r: Option<usize>)
    ensures
        r is None <==> position_of(files@, name@) < 0,
        r is Some ==> r->Some_0 == position_of(files@, name@),
{
    let mut i: usize = 0;
    while i < files.len()
        invariant
            i <= files@.len(),
            position_of(files@.subrange(0, i as int), name@) == -1,
        decreases files@.len() - i,
    {
        assert(files@.subrange(0, i + 1).drop_last() =~= files@.subrange(0, i as int));
        if files[i] == *name {
            proof {
                lemma_prefix_position(files@, name@, i as int);
            }
            return Some(i);
        }
        i = i + 1;
    }
    assert(files@.subrange(0, i as int) =~= files@);
    None
}

/// Once a prefix holds the first match, longer prefixes and the whole list agree on it.
proof fn lemma_prefix_position(s: Seq<String>, name: Seq<char>, i: int)
    requires
        0 <= i < s.len(),
        position_of(s.subrange(0, i + 1), name) == i,
    ensures
        position_of(s, name) == i,
    decreases s.len() - i,
{
    if s.len() > i + 1 {
        let t = s.drop_last();
        assert(t.subrange(0, i + 1) =~= s.subrange(0, i + 1));
        lemma_prefix_position(t, name, i);
    } else {
        assert(s.subrange(0, i + 1) =~= s);
    }
}

/// The file one step from the file at `path` in `direction`, among the
/// directory `entries` (file names, in the order the directory lists them)
/// that the viewer can open. None where the file is not among them, or where
/// the step would pass the first or the last of them: there is no wrapping.
/// A path without a file name (such as `/` or `dir/..`) has no neighbour.
pub fn get_next_file(path: &str, entries: &Vec<String>, direction: StepDirection) -> (r: Option<
    String,
>)
    ensures
        file_name(path@) is None ==> r is None,
        file_name(path@) is Some ==> r == step_from(
            compatible_entries(entries@),
            file_name(path@)->Some_0,
            direction,
        ),
{
    let files = compatible_files(entries);
    let (start, end) = match split_name(path) {
        None => return None,
        Some((s, e, _)) => (s, e),
    };
    let name = path.substring_char(start, end).to_owned();
    proof {
        lemma_position_bounds(files@, name@);
    }
    match find_name(&files, &name) {
        None => None,
        Some(i) => match direction {
            StepDirection::Backward => if i > 0 {
                Some(files[i - 1].clone())
            } else {
                None
            },
            StepDirection::Forward => if i < files.len() - 1 {
                Some(files[i + 1].clone())
            } else {
                None
            },
        },
    }
}

} // verus!
