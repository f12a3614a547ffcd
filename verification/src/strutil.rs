//! String helpers for path segments: extension splitting, equality,
//! lexicographic ordering on code points, and segment joining.
use vstd::prelude::*;

verus! {

// ---------------------------------------------------------------------------
// Extension and stem of a file name, with the semantics of std's `Path`:
// the extension is what follows the last `.`, and a name whose only `.` is
// its first character has no extension at all.
// ---------------------------------------------------------------------------

/// Index of the last `.` in `s`, if any.
pub open spec fn rfind_dot(s: Seq<char>) -> Option<int>
    decreases s.len(),
{
    if s.len() == 0 {
        None
    } else if s.last() == '.' {
        Some(s.len() - 1)
    } else {
        rfind_dot(s.drop_last())
    }
}

/// The extension of a file name: the part after the last `.`, unless the
/// only `.` starts the name.  The argument is taken as a plain file name,
/// not a path component: `..`, which std would not regard as a file name
/// at all, counts here as a name with an empty extension.  Request
/// sanitization rejects such segments before they reach any caller of
/// this function in the pipeline.
pub open spec fn ext_of(name: Seq<char>) -> Option<Seq<char>> {
    match rfind_dot(name) {
        Some(i) => if i > 0 {
            Some(name.subrange(i + 1, name.len() as int))
        } else {
            None
        },
        None => None,
    }
}

/// Whether a file name carries an extension.
pub open spec fn has_ext(name: Seq<char>) -> bool {
    ext_of(name) is Some
}

/// The stem of a file name: the part before the last `.`, or the whole
/// name when there is no extension.
pub open spec fn stem_of(name: Seq<char>) -> Seq<char> {
    match rfind_dot(name) {
        Some(i) => if i > 0 {
            name.subrange(0, i)
        } else {
            name
        },
        None => name,
    }
}

proof fn lemma_rfind_dot_in_range(s: Seq<char>)
    ensures
        rfind_dot(s) matches Some(i) ==> 0 <= i < s.len() && s[i] == '.',
    decreases s.len(),
{
    if s.len() > 0 && s.last() != '.' {
        lemma_rfind_dot_in_range(s.drop_last());
    }
}

/// If nothing at index `j` or beyond is a dot, the last dot lies in the
/// prefix before `j`.
proof fn lemma_rfind_dot_take(s: Seq<char>, j: int)
    requires
        0 <= j <= s.len(),
        forall|k: int| j <= k < s.len() ==> s[k] != '.',
    ensures
        rfind_dot(s) == rfind_dot(s.take(j)),
    decreases s.len() - j,
{
    if j < s.len() {
        assert(s.take(s.len() as int) =~= s);
        assert(s.take(j + 1).drop_last() =~= s.take(j));
        assert(s.take(j + 1).last() == s[j]);
        lemma_rfind_dot_take(s, j + 1);
        assert(rfind_dot(s.take(j + 1)) == rfind_dot(s.take(j)));
    } else {
        assert(s.take(j) =~= s);
    }
}

/// Index of the last `.` of `s`, executably.
pub fn find_last_dot(s: &str) -> (r: Option<usize>)
    ensures
        match r {
            Some(i) => rfind_dot(s@) == Some(i as int),
            None => rfind_dot(s@) is None,
        },
{
    let n = s.unicode_len();
    let mut i: usize = n;
    loop
        invariant
            0 <= i <= n,
            n == s@.len(),
            forall|k: int| i <= k < s@.len() ==> s@[k] != '.',
        decreases i,
    {
        if i == 0 {
            proof {
                lemma_rfind_dot_take(s@, 0);
                assert(s@.take(0) =~= Seq::<char>::empty());
            }
            return None;
        }
        i = i - 1;
        let c = s.get_char(i);
        if c == '.' {
            proof {
                lemma_rfind_dot_take(s@, i + 1);
                assert(s@.take(i + 1).last() == s@[i as int]);
            }
            return Some(i);
        }
    }
}

/// The extension of `name`, executably.
pub fn extension_of(name: &str) -> (r: Option<String>)
    ensures
        match r {
            Some(e) => ext_of(name@) == Some(e@),
            None => ext_of(name@) is None,
        },
{
    let n = name.unicode_len();
    match find_last_dot(name) {
        Some(i) => {
            proof {
                lemma_rfind_dot_in_range(name@);
            }
            assert(i < n);
            if i > 0 {
                let e = name.substring_char(i + 1, n);
                Some(e.to_owned())
            } else {
                None
            }
        },
        None => None,
    }
}

/// The stem of `name`, executably.
pub fn stem_of_name(name: &str) -> (r: String)
    ensures
        r@ == stem_of(name@),
{
    match find_last_dot(name) {
        Some(i) => {
            proof {
                lemma_rfind_dot_in_range(name@);
            }
            if i > 0 {
                name.substring_char(0, i).to_owned()
            } else {
                name.to_owned()
            }
        },
        None => name.to_owned(),
    }
}

// ---------------------------------------------------------------------------
// Equality of string slices.
// ---------------------------------------------------------------------------

/// Character-wise equality of two string slices.
pub fn str_eq(a: &str, b: &str) -> (r: bool)
    ensures
        r == (a@ == b@),
{
    let na = a.unicode_len();
    let nb = b.unicode_len();
    if na != nb {
        return false;
    }
    let mut i: usize = 0;
    loop
        invariant
            0 <= i <= na,
            na == a@.len(),
            na == b@.len(),
            forall|k: int| 0 <= k < i ==> a@[k] == b@[k],
        decreases na - i,
    {
        if i == na {
            proof {
                assert(a@ =~= b@);
            }
            return true;
        }
        if a.get_char(i) != b.get_char(i) {
            return false;
        }
        i = i + 1;
    }
}

// ---------------------------------------------------------------------------
// Lexicographic order on sequences of characters, by code point.
// ---------------------------------------------------------------------------

/// `a` comes no later than `b` in code-point lexicographic order.
pub open spec fn lex_le(a: Seq<char>, b: Seq<char>) -> bool
    decreases a.len(),
{
    if a.len() == 0 {
        true
    } else if b.len() == 0 {
        false
    } else if a[0] < b[0] {
        true
    } else if a[0] > b[0] {
        false
    } else {
        lex_le(a.skip(1), b.skip(1))
    }
}

pub proof fn lemma_lex_le_total(a: Seq<char>, b: Seq<char>)
    ensures
        lex_le(a, b) || lex_le(b, a),
    decreases a.len(),
{
    if a.len() > 0 && b.len() > 0 && a[0] == b[0] {
        lemma_lex_le_total(a.skip(1), b.skip(1));
    }
}

pub proof fn lemma_lex_le_antisymmetric(a: Seq<char>, b: Seq<char>)
    requires
        lex_le(a, b),
        lex_le(b, a),
    ensures
        a == b,
    decreases a.len(),
{
    if a.len() > 0 && b.len() > 0 && a[0] == b[0] {
        lemma_lex_le_antisymmetric(a.skip(1), b.skip(1));
        assert forall|i: int| 0 <= i < a.len() implies a[i] == b[i] by {
            if i > 0 {
                assert(a[i] == a.skip(1)[i - 1]);
                assert(b[i] == b.skip(1)[i - 1]);
            }
        }
        assert(a =~= b);
    } else {
        if a.len() == 0 {
            assert(b.len() == 0);
            assert(a =~= b);
        }
    }
}

pub proof fn lemma_lex_le_transitive(a: Seq<char>, b: Seq<char>, c: Seq<char>)
    requires
        lex_le(a, b),
        lex_le(b, c),
    ensures
        lex_le(a, c),
    decreases a.len(),
{
    if a.len() > 0 && b.len() > 0 && c.len() > 0 {
        if a[0] == b[0] && b[0] == c[0] {
            lemma_lex_le_transitive(a.skip(1), b.skip(1), c.skip(1));
        }
    }
}

/// If the first `i` characters agree, the order is decided by the rest.
proof fn lemma_lex_le_skip(a: Seq<char>, b: Seq<char>, i: int)
    requires
        0 <= i <= a.len(),
        0 <= i <= b.len(),
        forall|k: int| 0 <= k < i ==> a[k] == b[k],
    ensures
        lex_le(a, b) == lex_le(a.skip(i), b.skip(i)),
    decreases i,
{
    if i > 0 {
        assert(a.len() > 0 && b.len() > 0);
        assert(a[0] == b[0]);
        assert(a.skip(1).skip(i - 1) =~= a.skip(i));
        assert(b.skip(1).skip(i - 1) =~= b.skip(i));
        assert(forall|k: int| 0 <= k < i - 1 ==> a.skip(1)[k] == b.skip(1)[k]);
        lemma_lex_le_skip(a.skip(1), b.skip(1), i - 1);
    } else {
        assert(a.skip(0) =~= a);
        assert(b.skip(0) =~= b);
    }
}

/// Code-point lexicographic comparison of two string slices.
pub fn lex_le_str(a: &str, b: &str) -> (r: bool)
    ensures
        r == lex_le(a@, b@),
{
    let na = a.unicode_len();
    let nb = b.unicode_len();
    let mut i: usize = 0;
    loop
        invariant
            0 <= i <= na,
            0 <= i <= nb,
            na == a@.len(),
            nb == b@.len(),
            forall|k: int| 0 <= k < i ==> a@[k] == b@[k],
        decreases na - i,
    {
        proof {
            lemma_lex_le_skip(a@, b@, i as int);
        }
        if i == na {
            return true;
        }
        if i == nb {
            return false;
        }
        let ca = a.get_char(i);
        let cb = b.get_char(i);
        if ca < cb {
            return true;
        }
        if ca > cb {
            return false;
        }
        i = i + 1;
    }
}

// ---------------------------------------------------------------------------
// Joining path segments with `/`.
// ---------------------------------------------------------------------------

/// The segments joined with `/` between them.
pub open spec fn join_segs(segs: Seq<Seq<char>>) -> Seq<char>
    decreases segs.len(),
{
    if segs.len() == 0 {
        Seq::empty()
    } else if segs.len() == 1 {
        segs[0]
    } else {
        join_segs(segs.drop_last()) + seq!['/'] + segs.last()
    }
}

pub proof fn lemma_join_segs_push(segs: Seq<Seq<char>>, x: Seq<char>)
    ensures
        join_segs(segs.push(x)) == if segs.len() == 0 {
            x
        } else {
            join_segs(segs) + seq!['/'] + x
        },
{
    assert(segs.push(x).drop_last() =~= segs);
    assert(segs.push(x).last() == x);
    if segs.len() == 0 {
        assert(segs.push(x).len() == 1);
        assert(join_segs(segs.push(x)) == segs.push(x)[0]);
    }
}

/// The segments joined with `/`, executably.
pub fn join_segments(v: &Vec<String>) -> (r: String)
    ensures
        r@ == join_segs(v.deep_view()),
{
    let ghost dv = v.deep_view();
    let mut r = String::new();
    let mut i: usize = 0;
    while i < v.len()
        invariant
            0 <= i <= v.len(),
            dv == v.deep_view(),
            dv.len() == v@.len(),
            forall|k: int| 0 <= k < dv.len() ==> dv[k] == #[trigger] v@[k]@,
            r@ == join_segs(dv.take(i as int)),
        decreases v.len() - i,
    {
        if i > 0 {
            r.append("/");
        }
        r.append(v[i].as_str());
        proof {
            reveal_strlit("/");
            assert("/"@ =~= seq!['/']);
            lemma_join_segs_push(dv.take(i as int), dv[i as int]);
            assert(dv.take(i as int).push(dv[i as int]) =~= dv.take(i + 1));
            if i == 0 {
                assert(r@ =~= dv[0]);
            } else {
                assert(r@ =~= join_segs(dv.take(i as int)) + seq!['/'] + dv[i as int]);
            }
        }
        i = i + 1;
    }
    proof {
        assert(dv.take(v@.len() as int) =~= dv);
    }
    r
}

// ---------------------------------------------------------------------------
// Equality of segment vectors.
// ---------------------------------------------------------------------------

/// Equality of two segment vectors, segment by segment.
pub fn segs_eq(a: &Vec<String>, b: &Vec<String>) -> (r: bool)
    ensures
        r == (a.deep_view() == b.deep_view()),
{
    if a.len() != b.len() {
        proof {
            assert(a.deep_view().len() != b.deep_view().len());
        }
        return false;
    }
    let mut i: usize = 0;
    loop
        invariant
            0 <= i <= a.len(),
            a@.len() == b@.len(),
            forall|k: int| 0 <= k < i ==> a.deep_view()[k] == b.deep_view()[k],
        decreases a.len() - i,
    {
        if i == a.len() {
            proof {
                assert(a.deep_view() =~= b.deep_view());
            }
            return true;
        }
        if !str_eq(a[i].as_str(), b[i].as_str()) {
            proof {
                assert(a.deep_view()[i as int] != b.deep_view()[i as int]);
            }
            return false;
        }
        i = i + 1;
    }
}

} // verus!
