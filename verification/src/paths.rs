//! Traversal-safe conversion between filesystem paths and the canonical,
//! slash-separated relative names stored in a collection.
//!
//! A name is a sequence of `/`-separated parts. A part is acceptable when it
//! is not `.`, not `..`, and holds no backslash; these are the only shapes
//! that could escape the export root or smuggle a separator past it.

use vstd::prelude::*;
use vstd::string::*;

verus! {

/// Why a path or a collection-entry name was rejected.
#[derive(Debug, Clone, Copy, PartialEq, Eq)]
pub enum PathError {
    /// A component was `..` or `.`, held a backslash, or made the path
    /// absolute where a relative one was required.
    InvalidPathComponent,
    /// The path could not be represented as text.
    InvalidEncoding,
}

/// The parts of `s` split on `'/'`: always one part more than separators,
/// so `a//b` has an empty middle part and `a/` an empty last one.
pub open spec fn split_slash(s: Seq<char>) -> Seq<Seq<char>>
    decreases s.len(),
{
    if s.len() == 0 {
        seq![Seq::<char>::empty()]
    } else if s[0] == '/' {
        seq![Seq::<char>::empty()] + split_slash(s.drop_first())
    } else {
        let rest = split_slash(s.drop_first());
        seq![seq![s[0]] + rest[0]] + rest.drop_first()
    }
}

/// A single part is acceptable in a name: no backslash, not `.`, not `..`.
pub open spec fn part_ok(p: Seq<char>) -> bool {
    !p.contains('\\') && p != seq!['.'] && p != seq!['.', '.']
}

/// Every part of `s` is acceptable.
pub open spec fn parts_ok(s: Seq<char>) -> bool {
    forall|i: int| 0 <= i < split_slash(s).len() ==> part_ok(#[trigger] split_slash(s)[i])
}

/// `s` names the filesystem root as its first component.
pub open spec fn is_absolute(s: Seq<char>) -> bool {
    s.len() > 0 && s[0] == '/'
}

/// The inputs `canonicalized_path_to_string` accepts.
pub open spec fn encode_ok(s: Seq<char>, must_be_relative: bool) -> bool {
    parts_ok(s) && (must_be_relative ==> !is_absolute(s))
}

/// The parts of `parts` that are not empty, joined with `'/'`.
pub open spec fn join_nonempty(parts: Seq<Seq<char>>) -> Seq<char>
    decreases parts.len(),
{
    if parts.len() == 0 {
        Seq::empty()
    } else {
        let p = parts.first();
        let rest = join_nonempty(parts.drop_first());
        if p.len() == 0 {
            rest
        } else if rest.len() == 0 {
            p
        } else {
            p + seq!['/'] + rest
        }
    }
}

/// What `canonicalized_path_to_string` returns on success: the nonempty
/// parts, joined again with `'/'`.
pub open spec fn encoded_name(s: Seq<char>) -> Seq<char> {
    join_nonempty(split_slash(s))
}

/// What `get_export_path` returns on success.
pub open spec fn export_path(root: Seq<char>, name: Seq<char>) -> Seq<char> {
    root + seq!['/'] + name
}

/// A name already in canonical relative form: every part nonempty and
/// acceptable. Exactly these names come back from `canonicalized_path_to_string`
/// unchanged.
pub open spec fn canonical_name(s: Seq<char>) -> bool {
    forall|i: int| 0 <= i < split_slash(s).len()
        ==> part_ok(#[trigger] split_slash(s)[i]) && split_slash(s)[i].len() > 0
}

/// The index of the first `'/'` in `s`, or `s.len()` if there is none.
spec fn first_slash(s: Seq<char>) -> int
    decreases s.len(),
{
    if s.len() == 0 {
        0
    } else if s[0] == '/' {
        0
    } else {
        1 + first_slash(s.drop_first())
    }
}

proof fn lemma_first_slash(s: Seq<char>)
    ensures
        0 <= first_slash(s) <= s.len(),
        forall|k: int| 0 <= k < first_slash(s) ==> s[k] != '/',
        first_slash(s) < s.len() ==> s[first_slash(s)] == '/',
    decreases s.len(),
{
    if s.len() == 0 {
    } else if s[0] == '/' {
    } else {
        lemma_first_slash(s.drop_first());
        assert forall|k: int| 0 <= k < first_slash(s) implies s[k] != '/' by {
            if k >= 1 {
                assert(s[k] == s.drop_first()[k - 1]);
            }
        }
    }
}

/// Splitting always yields at least one part.
proof fn lemma_split_len(s: Seq<char>)
    ensures
        split_slash(s).len() >= 1,
    decreases s.len(),
{
    if s.len() == 0 {
    } else {
        lemma_split_len(s.drop_first());
    }
}

/// A slash-free sequence is a single part.
proof fn lemma_split_noslash(s: Seq<char>)
    requires
        forall|k: int| 0 <= k < s.len() ==> s[k] != '/',
    ensures
        split_slash(s) =~~= seq![s],
    decreases s.len(),
{
    if s.len() == 0 {
    } else {
        lemma_split_noslash(s.drop_first());
        lemma_split_len(s.drop_first());
        assert(seq![s[0]] + s.drop_first() =~= s);
    }
}

/// Splitting at the first slash peels off the leading part.
proof fn lemma_split_step(t: Seq<char>, j: int)
    requires
        0 <= j < t.len(),
        t[j] == '/',
        forall|k: int| 0 <= k < j ==> t[k] != '/',
    ensures
        split_slash(t) =~~= seq![t.subrange(0, j)] + split_slash(t.subrange(j + 1, t.len() as int)),
    decreases j,
{
    lemma_split_len(t.drop_first());
    if j == 0 {
        assert(t.subrange(1, t.len() as int) =~= t.drop_first());
        assert(t.subrange(0, 0) =~= Seq::<char>::empty());
    } else {
        let t1 = t.drop_first();
        lemma_split_step(t1, j - 1);
        lemma_split_len(t1.subrange(j, t1.len() as int));
        assert(t1.subrange(j - 1 + 1, t1.len() as int) =~= t.subrange(j + 1, t.len() as int));
        assert(seq![t[0]] + t1.subrange(0, j - 1) =~= t.subrange(0, j));
    }
}

/// Appending one more part extends the join by at most one separator.
proof fn lemma_join_push(ps: Seq<Seq<char>>, p: Seq<char>)
    ensures
        join_nonempty(ps.push(p)) == (if p.len() == 0 {
            join_nonempty(ps)
        } else if join_nonempty(ps).len() == 0 {
            p
        } else {
            join_nonempty(ps) + seq!['/'] + p
        }),
    decreases ps.len(),
{
    if ps.len() == 0 {
        assert(ps.push(p).first() == p);
        assert(ps.push(p).drop_first() =~~= Seq::<Seq<char>>::empty());
        assert(join_nonempty(Seq::<Seq<char>>::empty()) == Seq::<char>::empty());
        assert(join_nonempty(ps) == Seq::<char>::empty());
    } else {
        lemma_join_push(ps.drop_first(), p);
        assert(ps.push(p).first() == ps.first());
        assert(ps.push(p).drop_first() =~~= ps.drop_first().push(p));
        let a = ps.first();
        let r = join_nonempty(ps.drop_first());
        let rp = join_nonempty(ps.drop_first().push(p));
        assert(join_nonempty(ps.push(p)) == if a.len() == 0 {
            rp
        } else if rp.len() == 0 {
            a
        } else {
            a + seq!['/'] + rp
        });
        if a.len() > 0 && r.len() > 0 && p.len() > 0 {
            assert(a + seq!['/'] + (r + seq!['/'] + p) =~= (a + seq!['/'] + r) + seq!['/'] + p);
            assert(rp == r + seq!['/'] + p);
            assert(rp.len() > 0);
        }
    }
}

/// True when some character of `p` is a backslash.
fn contains_backslash(p: &str) -> (b: bool)
    ensures
        b == p@.contains('\\'),
{
    let n = p.unicode_len();
    let mut i: usize = 0;
    while i < n
        invariant
            i <= n,
            n == p@.len(),
            forall|k: int| 0 <= k < i ==> p@[k] != '\\',
        decreases n - i,
    {
        if p.get_char(i) == '\\' {
            return true;
        }
        i += 1;
    }
    false
}

/// One part of a name passes the traversal checks.
fn part_is_ok(p: &str) -> (b: bool)
    ensures
        b == part_ok(p@),
{
    if contains_backslash(p) {
        return false;
    }
    let n = p.unicode_len();
    if n == 1 && p.get_char(0) == '.' {
        assert(p@ =~= seq!['.']);
        return false;
    }
    if n == 2 && p.get_char(0) == '.' && p.get_char(1) == '.' {
        assert(p@ =~= seq!['.', '.']);
        return false;
    }
    assert(p@ != seq!['.'] && p@ != seq!['.', '.']) by {
        if p@ =~= seq!['.'] {
            assert(p@.len() == 1 && p@[0] == '.');
        }
        if p@ =~= seq!['.', '.'] {
            assert(p@.len() == 2 && p@[0] == '.' && p@[1] == '.');
        }
    }
    true
}

/// Split `s` on `'/'`, materializing each part.
fn split_name(s: &str) -> (parts: Vec<String>)
    ensures
        parts@.map_values(|p: String| p@) =~~= split_slash(s@),
{
    let n = s.unicode_len();
    let mut parts: Vec<String> = Vec::new();
    let mut start: usize = 0;
    let mut i: usize = 0;
    proof {
        assert(s@.subrange(0, n as int) =~= s@);
        assert(parts@.map_values(|p: String| p@) =~= Seq::<Seq<char>>::empty());
    }
    while i < n
        invariant
            n == s@.len(),
            start <= i <= n,
            forall|k: int| start <= k < i ==> s@[k] != '/',
            split_slash(s@) =~~= parts@.map_values(|p: String| p@) + split_slash(
                s@.subrange(start as int, n as int),
            ),
        decreases n - i,
    {
        if s.get_char(i) == '/' {
            let part = s.substring_char(start, i);
            let ghost old_parts = parts@;
            parts.push(String::from_str(part));
            proof {
                let t = s@.subrange(start as int, n as int);
                lemma_split_step(t, i - start);
                assert(t.subrange(0, i - start) =~= s@.subrange(start as int, i as int));
                assert(t.subrange(i - start + 1, t.len() as int) =~= s@.subrange(
                    i + 1,
                    n as int,
                ));
                assert(parts@.map_values(|p: String| p@) =~~= old_parts.map_values(
                    |p: String| p@,
                ).push(part@));
            }
            start = i + 1;
        }
        i += 1;
    }
    let last = s.substring_char(start, n);
    let ghost old_parts = parts@;
    parts.push(String::from_str(last));
    proof {
        let t = s@.subrange(start as int, n as int);
        lemma_split_noslash(t);
        assert(parts@.map_values(|p: String| p@) =~~= old_parts.map_values(|p: String| p@).push(
            last@,
        ));
    }
    parts
}

/// Converts a path to a canonical, forward-slash-separated name.
///
/// Empty components collapse; a component equal to `.` or `..`, or holding a
/// backslash, is rejected, as is an absolute path when `must_be_relative`.
pub fn canonicalized_path_to_string(path: &str, must_be_relative: bool) -> (r: Result<
    String,
    PathError,
>)
    ensures
        r is Ok <==> encode_ok(path@, must_be_relative),
        r matches Ok(name) ==> name@ == encoded_name(path@),
        r matches Err(e) ==> e == PathError::InvalidPathComponent,
{
    let n = path.unicode_len();
    if must_be_relative && n > 0 && path.get_char(0) == '/' {
        return Err(PathError::InvalidPathComponent);
    }
    let parts = split_name(path);
    let ghost sp = split_slash(path@);
    let mut i: usize = 0;
    while i < parts.len()
        invariant
            parts@.map_values(|p: String| p@) =~~= sp,
            sp == split_slash(path@),
            i <= parts.len(),
            forall|k: int| 0 <= k < i ==> part_ok(#[trigger] sp[k]),
            encode_ok(path@, must_be_relative) ==> parts_ok(path@),
            must_be_relative ==> !is_absolute(path@),
        decreases parts@.len() - i,
    {
        if !part_is_ok(parts[i].as_str()) {
            proof {
                assert(!part_ok(sp[i as int]));
                assert(!parts_ok(path@));
            }
            return Err(PathError::InvalidPathComponent);
        }
        i += 1;
    }
    assert(parts_ok(path@));
    let mut out = String::new();
    let mut j: usize = 0;
    proof {
        assert(sp.subrange(0, 0) =~~= Seq::<Seq<char>>::empty());
    }
    while j < parts.len()
        invariant
            parts@.map_values(|p: String| p@) =~~= sp,
            sp == split_slash(path@),
            j <= parts.len(),
            out@ == join_nonempty(sp.subrange(0, j as int)),
        decreases parts@.len() - j,
    {
        proof {
            lemma_join_push(sp.subrange(0, j as int), sp[j as int]);
            assert(sp.subrange(0, j as int).push(sp[j as int]) =~~= sp.subrange(0, j + 1));
            reveal_strlit("/");
            assert("/"@ =~= seq!['/']);
        }
        if parts[j].as_str().unicode_len() > 0 {
            if out.as_str().unicode_len() > 0 {
                out.append("/");
            }
            out.append(parts[j].as_str());
        }
        j += 1;
    }
    proof {
        assert(sp.subrange(0, parts@.len() as int) =~~= sp);
    }
    Ok(out)
}

/// Joins `name` onto `root`, refusing every name whose components could
/// escape `root`: `..`, a bare `.`, or a backslash anywhere.
pub fn get_export_path(root: &str, name: &str) -> (r: Result<String, PathError>)
    ensures
        r is Ok <==> parts_ok(name@),
        r matches Ok(target) ==> target@ == export_path(root@, name@),
        r matches Err(e) ==> e == PathError::InvalidPathComponent,
{
    let parts = split_name(name);
    let ghost sp = split_slash(name@);
    let mut i: usize = 0;
    while i < parts.len()
        invariant
            parts@.map_values(|p: String| p@) =~~= sp,
            sp == split_slash(name@),
            i <= parts.len(),
            forall|k: int| 0 <= k < i ==> part_ok(#[trigger] sp[k]),
        decreases parts@.len() - i,
    {
        if !part_is_ok(parts[i].as_str()) {
            proof {
                assert(!part_ok(sp[i as int]));
                assert(!parts_ok(name@));
            }
            return Err(PathError::InvalidPathComponent);
        }
        i += 1;
    }
    assert(parts_ok(name@));
    let mut out = String::from_str(root);
    out.append("/");
    out.append(name);
    proof {
        reveal_strlit("/");
        assert("/"@ =~= seq!['/']);
    }
    Ok(out)
}

/// A backslash anywhere in `s` lands inside some part of the split.
proof fn lemma_backslash_in_parts(s: Seq<char>)
    requires
        s.contains('\\'),
    ensures
        exists|k: int|
            0 <= k < split_slash(s).len() && #[trigger] split_slash(s)[k].contains('\\'),
    decreases s.len(),
{
    let i = choose|i: int| 0 <= i < s.len() && s[i] == '\\';
    lemma_split_len(s.drop_first());
    if s[0] == '\\' {
        let rest = split_slash(s.drop_first());
        assert(split_slash(s)[0] == seq![s[0]] + rest[0]);
        assert(split_slash(s)[0][0] == '\\');
        assert(split_slash(s)[0].contains('\\'));
    } else {
        assert(s.drop_first()[i - 1] == '\\');
        assert(s.drop_first().contains('\\'));
        lemma_backslash_in_parts(s.drop_first());
        let k = choose|k: int|
            0 <= k < split_slash(s.drop_first()).len() && #[trigger] split_slash(
                s.drop_first(),
            )[k].contains('\\');
        let rest = split_slash(s.drop_first());
        if s[0] == '/' {
            assert(split_slash(s)[k + 1] == rest[k]);
        } else {
            if k == 0 {
                let j = choose|j: int| 0 <= j < rest[0].len() && rest[0][j] == '\\';
                assert(split_slash(s)[0] == seq![s[0]] + rest[0]);
                assert(split_slash(s)[0][j + 1] == '\\');
                assert(split_slash(s)[0].contains('\\'));
            } else {
                assert(split_slash(s)[k] == rest.drop_first()[k - 1]);
                assert(split_slash(s)[k] == rest[k]);
            }
        }
    }
}

/// `canonicalized_path_to_string` rejects every path that holds a `..` or
/// `.` component, or a literal backslash anywhere.
pub proof fn lemma_encode_rejects(s: Seq<char>, must_be_relative: bool)
    requires
        s.contains('\\') || exists|i: int|
            0 <= i < split_slash(s).len() && (#[trigger] split_slash(s)[i] == seq!['.']
                || split_slash(s)[i] == seq!['.', '.']),
    ensures
        !encode_ok(s, must_be_relative),
{
    if s.contains('\\') {
        lemma_backslash_in_parts(s);
        let k = choose|k: int|
            0 <= k < split_slash(s).len() && #[trigger] split_slash(s)[k].contains('\\');
        assert(!part_ok(split_slash(s)[k]));
    } else {
        let i = choose|i: int|
            0 <= i < split_slash(s).len() && (#[trigger] split_slash(s)[i] == seq!['.']
                || split_slash(s)[i] == seq!['.', '.']);
        assert(!part_ok(split_slash(s)[i]));
    }
}

/// `get_export_path` rejects every name that holds a `..` or `.` component,
/// or a literal backslash, whatever the root.
pub proof fn lemma_export_rejects(name: Seq<char>)
    requires
        name.contains('\\') || exists|i: int|
            0 <= i < split_slash(name).len() && (#[trigger] split_slash(name)[i] == seq!['.']
                || split_slash(name)[i] == seq!['.', '.']),
    ensures
        !parts_ok(name),
{
    lemma_encode_rejects(name, false);
}

/// A canonical name comes back from encoding unchanged.
proof fn lemma_join_split_canonical(s: Seq<char>)
    requires
        canonical_name(s),
    ensures
        join_nonempty(split_slash(s)) == s,
    decreases s.len(),
{
    lemma_first_slash(s);
    lemma_split_len(s);
    let j = first_slash(s);
    if j == s.len() {
        lemma_split_noslash(s);
        if s.len() == 0 {
            assert(split_slash(s)[0].len() == 0);
        }
        assert(seq![s].first() == s);
        assert(seq![s].drop_first() =~~= Seq::<Seq<char>>::empty());
        assert(join_nonempty(Seq::<Seq<char>>::empty()) == Seq::<char>::empty());
        assert(join_nonempty(seq![s]) == s);
    } else {
        lemma_split_step(s, j);
        let tail = s.subrange(j + 1, s.len() as int);
        let head = s.subrange(0, j);
        lemma_split_len(tail);
        assert forall|k: int| 0 <= k < split_slash(tail).len() implies part_ok(
            #[trigger] split_slash(tail)[k],
        ) && split_slash(tail)[k].len() > 0 by {
            assert(split_slash(s)[k + 1] == split_slash(tail)[k]);
        }
        lemma_join_split_canonical(tail);
        assert(split_slash(s)[0] == head);
        if j == 0 {
            assert(!canonical_name(s));
        }
        if tail.len() == 0 {
            assert(split_slash(tail) =~~= seq![Seq::<char>::empty()]) by {
                lemma_split_noslash(tail);
            }
            assert(split_slash(s)[1].len() == 0);
            assert(!canonical_name(s));
        }
        let rest_parts = split_slash(tail);
        assert((seq![head] + rest_parts).first() == head);
        assert((seq![head] + rest_parts).drop_first() =~~= rest_parts);
        assert(join_nonempty(split_slash(s)) == head + seq!['/'] + tail);
        assert(head + seq!['/'] + tail =~= s);
    }
}

/// Round trip: a canonical relative name encodes to itself, and decoding it
/// under any root lands exactly at `root/name` — never anywhere else.
pub proof fn lemma_name_round_trip(root: Seq<char>, path: Seq<char>)
    requires
        canonical_name(path),
    ensures
        encode_ok(path, true),
        encoded_name(path) == path,
        parts_ok(path),
        export_path(root, encoded_name(path)) == root + seq!['/'] + path,
{
    lemma_split_len(path);
    if is_absolute(path) {
        assert(split_slash(path)[0].len() == 0);
    }
    lemma_join_split_canonical(path);
}

} // verus!
