//! Relative references: where a URL that the documentation UI was given
//! leads, seen from the path under which the UI is served.
//!
//! Only paths are resolved. A query or a fragment is taken as part of the last
//! segment.

use crate::json::{join, joined, texts};
use vstd::prelude::*;
use vstd::string::{StrSliceExecFns, StringExecFns};

verus! {

/// Whether `path` begins with a slash.
pub open spec fn is_absolute(path: Seq<char>) -> bool {
    path.len() > 0 && path[0] == '/'
}

/// The segments of `path`: the texts between its slashes. There is one more
/// segment than there are slashes, so an absolute path begins with an empty
/// segment, and a path that ends in a slash ends with one.
pub open spec fn segments(path: Seq<char>) -> Seq<Seq<char>>
    decreases path.len(),
{
    if path.len() == 0 {
        seq![Seq::empty()]
    } else {
        let before = segments(path.drop_last());
        if path.last() == '/' {
            before.push(Seq::empty())
        } else {
            before.drop_last().push(before.last().push(path.last()))
        }
    }
}

/// The directories that the segments after the first and before `upto` lead
/// into: `.` stays where it is, `..` leaves the directory it is in, if it is in
/// one, and every other segment enters a directory.
pub open spec fn directories(segs: Seq<Seq<char>>, upto: int) -> Seq<Seq<char>>
    decreases upto,
{
    if upto <= 1 {
        Seq::empty()
    } else {
        let before = directories(segs, upto - 1);
        let segment = segs[upto - 1];
        if segment == "."@ {
            before
        } else if segment == ".."@ {
            if before.len() > 0 {
                before.drop_last()
            } else {
                before
            }
        } else {
            before.push(segment)
        }
    }
}

/// The segments of an absolute path without its first, empty one, and with
/// `.` and `..` taken out. A last segment that is `.` or `..` names a
/// directory, so the result then ends with an empty segment.
pub open spec fn normalized(segs: Seq<Seq<char>>) -> Seq<Seq<char>> {
    if segs.len() < 2 {
        seq![Seq::empty()]
    } else if segs.last() == "."@ || segs.last() == ".."@ {
        directories(segs, segs.len() as int).push(Seq::empty())
    } else {
        directories(segs, segs.len() - 1).push(segs.last())
    }
}

/// The segments of the path that `reference` names, seen from `base`: those
/// of the reference itself where it is absolute, those of the base where the
/// reference is empty, and otherwise those of the base without its last
/// segment, followed by those of the reference.
pub open spec fn merged(base: Seq<char>, reference: Seq<char>) -> Seq<Seq<char>> {
    if is_absolute(reference) {
        segments(reference)
    } else if reference.len() == 0 {
        segments(base)
    } else {
        segments(base).drop_last() + segments(reference)
    }
}

/// The absolute path that `reference` names, seen from the absolute path
/// `base`. A base that is not absolute gives nothing.
pub open spec fn resolved(base: Seq<char>, reference: Seq<char>) -> Option<Seq<char>> {
    if is_absolute(base) {
        Some("/"@ + joined(normalized(merged(base, reference)), "/"@))
    } else {
        None
    }
}

/// Appending a text without slashes lengthens the last segment.
proof fn lemma_segments_append(path: Seq<char>, tail: Seq<char>)
    requires
        forall|i: int| 0 <= i < tail.len() ==> tail[i] != '/',
    ensures
        segments(path + tail) == segments(path).drop_last().push(segments(path).last() + tail),
        segments(path).len() >= 1,
    decreases tail.len(),
{
    if tail.len() > 0 {
        let shorter = tail.drop_last();
        lemma_segments_append(path, shorter);
        assert((path + tail).drop_last() =~= path + shorter);
        assert(segments(path).last() + tail =~= (segments(path).last() + shorter).push(
            tail.last(),
        ));
    }
}

/// Splitting undoes joining: texts without slashes, joined by slashes, are the
/// segments of the path they make.
pub proof fn lemma_segments_of_joined(parts: Seq<Seq<char>>)
    requires
        parts.len() >= 1,
        forall|k: int, i: int|
            0 <= k < parts.len() && 0 <= i < parts[k].len() ==> #[trigger] parts[k][i] != '/',
    ensures
        segments(joined(parts, "/"@)) == parts,
    decreases parts.len(),
{
    reveal_strlit("/");
    if parts.len() == 1 {
        lemma_segments_append(Seq::empty(), parts[0]);
    } else {
        let before = parts.drop_last();
        lemma_segments_of_joined(before);
        let path = joined(before, "/"@) + "/"@;
        assert(path.drop_last() =~= joined(before, "/"@));
        lemma_segments_append(path, parts.last());
    }
}

/// The segments of `path`.
pub fn split_segments(path: &str) -> (r: Vec<String>)
    ensures
        texts(r@) == segments(path@),
{
    let n = path.unicode_len();
    let mut done: Vec<String> = Vec::new();
    let mut start: usize = 0;
    let mut i: usize = 0;
    assert(path@.subrange(0, 0) =~= Seq::empty());
    while i < n
        invariant
            start <= i <= n,
            n == path@.len(),
            texts(done@).push(path@.subrange(start as int, i as int)) == segments(
                path@.take(i as int),
            ),
        decreases n - i,
    {
        let c = path.get_char(i);
        assert(path@.take(i as int + 1).drop_last() =~= path@.take(i as int));
        if c == '/' {
            done.push(String::from_str(path.substring_char(start, i)));
            start = i + 1;
            assert(path@.subrange(start as int, i as int + 1) =~= Seq::empty());
        } else {
            assert(path@.subrange(start as int, i as int + 1) =~= segments(
                path@.take(i as int),
            ).last().push(c));
        }
        i += 1;
    }
    done.push(String::from_str(path.substring_char(start, n)));
    assert(path@.take(n as int) =~= path@);
    done
}

/// `segs` without their first, and with `.` and `..` taken out.
fn normalize(segs: &Vec<String>) -> (r: Vec<String>)
    ensures
        texts(r@) == normalized(texts(segs@)),
{
    let n = segs.len();
    let mut out: Vec<String> = Vec::new();
    if n < 2 {
        out.push(String::new());
        return out;
    }
    let dot = String::from_str(".");
    let dot_dot = String::from_str("..");
    let names_directory = segs[n - 1] == dot || segs[n - 1] == dot_dot;
    let upto = if names_directory {
        n
    } else {
        n - 1
    };
    let mut k: usize = 1;
    while k < upto
        invariant
            1 <= k <= upto <= n,
            n == segs.len(),
            dot@ == "."@,
            dot_dot@ == ".."@,
            texts(out@) == directories(texts(segs@), k as int),
        decreases upto - k,
    {
        if segs[k] == dot {
            // Stays where it is.
        } else if segs[k] == dot_dot {
            if out.len() > 0 {
                out.pop();
            }
        } else {
            out.push(segs[k].clone());
        }
        k += 1;
    }
    if names_directory {
        out.push(String::new());
    } else {
        out.push(segs[n - 1].clone());
    }
    out
}

/// The absolute path that `reference` names, seen from the absolute path
/// `base`, as a browser resolves a link: `.` and `..` are taken out, and `..`
/// never leaves the root. It is `None` exactly when `base` does not begin with
/// a slash.
pub fn resolve_reference(base: &str, reference: &str) -> (r: Option<String>)
    ensures
        r is Some == is_absolute(base@),
        match r {
            Some(path) => resolved(base@, reference@) == Some(path@),
            None => resolved(base@, reference@) is None,
        },
{
    if base.unicode_len() == 0 || base.get_char(0) != '/' {
        return None;
    }
    let reference_segments = split_segments(reference);
    let all = if reference.unicode_len() > 0 && reference.get_char(0) == '/' {
        reference_segments
    } else if reference.unicode_len() == 0 {
        split_segments(base)
    } else {
        let mut all = split_segments(base);
        let ghost kept = all@;
        all.pop();
        let ghost front = all@;
        let mut k: usize = 0;
        while k < reference_segments.len()
            invariant
                k <= reference_segments.len(),
                texts(all@) == texts(front) + texts(reference_segments@).take(k as int),
            decreases reference_segments.len() - k,
        {
            let ghost before = all@;
            all.push(reference_segments[k].clone());
            assert(texts(all@) =~= texts(before).push(reference_segments@[k as int]@));
            k += 1;
        }
        assert(texts(reference_segments@).take(reference_segments.len() as int) =~= texts(
            reference_segments@,
        ));
        assert(texts(front) =~= texts(kept).drop_last());
        all
    };
    let mut out = String::from_str("/");
    out.append(join(&normalize(&all), "/").as_str());
    Some(out)
}

} // verus!
