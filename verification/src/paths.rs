//! Unix paths as the standard library's `Path` reads them: components,
//! ancestry, the final file name, and joining.
use vstd::prelude::*;

use crate::text;
use crate::text::chars_of;

verus! {

broadcast use vstd::seq_lib::group_seq_properties;

// ---------------------------------------------------------------------------
// Path components
// ---------------------------------------------------------------------------

pub open spec fn dot() -> Seq<char> {
    seq!['.']
}

pub open spec fn root() -> Seq<char> {
    seq!['/']
}

/// The pieces of a path between separators that name something: empty
/// pieces (repeated or trailing `/`) and `.` are left out.
pub open spec fn named_pieces(ps: Seq<Seq<char>>) -> Seq<Seq<char>>
    decreases ps.len(),
{
    if ps.len() == 0 {
        seq![]
    } else {
        let rest = named_pieces(ps.drop_last());
        if ps.last().len() == 0 || ps.last() == dot() {
            rest
        } else {
            rest.push(ps.last())
        }
    }
}

/// The components of a Unix path as `Path::components` yields them: `/` for
/// a leading separator, else `.` when the path starts with `.` followed by a
/// separator or nothing; then the named pieces.
pub open spec fn components(p: Seq<char>) -> Seq<Seq<char>> {
    let lead = if p.len() > 0 && p[0] == '/' {
        seq![root()]
    } else if p.len() > 0 && p[0] == '.' && (p.len() == 1 || p[1] == '/') {
        seq![dot()]
    } else {
        seq![]
    };
    lead + named_pieces(text::split(p, '/'))
}

/// `Path::starts_with`: the components of `base` are the first components of
/// `p` (equal paths included).
pub open spec fn path_starts_with(p: Seq<char>, base: Seq<char>) -> bool {
    let a = components(p);
    let b = components(base);
    b.len() <= a.len() && a.take(b.len() as int) == b
}

fn named_piece_vecs(pieces: &Vec<Vec<char>>, out: &mut Vec<Vec<char>>)
    ensures
        text::views(final(out)@) == text::views(old(out)@) + named_pieces(text::views(pieces@)),
{
    let ghost pv = text::views(pieces@);
    let ghost lead = text::views(out@);
    let mut i: usize = 0;
    while i < pieces.len()
        invariant
            i <= pieces@.len(),
            pv == text::views(pieces@),
            text::views(out@) == lead + named_pieces(pv.take(i as int)),
        decreases pieces.len() - i,
    {
        let ghost t = pv.take(i + 1);
        assert(t.drop_last() == pv.take(i as int));
        assert(t.last() == pieces@[i as int]@);
        let ghost before = text::views(out@);
        let n = pieces[i].len();
        if n == 0 || (n == 1 && pieces[i][0] == '.') {
            proof {
                if n == 1 {
                    assert(pieces@[i as int]@ =~= dot());
                }
            }
            assert(named_pieces(t) == named_pieces(pv.take(i as int)));
        } else {
            assert(pieces@[i as int]@ != dot());
            let piece = text::sub_vec(&pieces[i], 0, n);
            assert(pieces@[i as int]@.subrange(0, n as int) == pieces@[i as int]@);
            out.push(piece);
            assert(text::views(out@) =~= before.push(pieces@[i as int]@));
            assert(named_pieces(t) == named_pieces(pv.take(i as int)).push(t.last()));
        }
        i = i + 1;
    }
    assert(pv.take(pv.len() as int) == pv);
}

pub fn path_components(p: &str) -> (r: Vec<Vec<char>>)
    ensures
        text::views(r@) == components(p@),
{
    let v = chars_of(p);
    let pieces = text::split_char(&v, '/');
    let mut out: Vec<Vec<char>> = Vec::new();
    if v.len() > 0 && v[0] == '/' {
        let r: Vec<char> = vec!['/'];
        assert(r@ =~= root());
        out.push(r);
        assert(text::views(out@) =~= seq![root()]);
    } else if v.len() > 0 && v[0] == '.' && (v.len() == 1 || v[1] == '/') {
        let d: Vec<char> = vec!['.'];
        assert(d@ =~= dot());
        out.push(d);
        assert(text::views(out@) =~= seq![dot()]);
    } else {
        assert(text::views(out@) =~= Seq::<Seq<char>>::empty());
    }
    named_piece_vecs(&pieces, &mut out);
    out
}

/// `Path::starts_with` on two paths given as text: `base` is `p` itself or
/// one of its ancestors, compared component by component.
pub fn starts_with_path(p: &str, base: &str) -> (r: bool)
    ensures
        r == path_starts_with(p@, base@),
{
    let a = path_components(p);
    let b = path_components(base);
    if b.len() > a.len() {
        assert(components(base@).len() > components(p@).len());
        return false;
    }
    let mut i: usize = 0;
    while i < b.len()
        invariant
            i <= b@.len(),
            b@.len() <= a@.len(),
            text::views(a@) == components(p@),
            text::views(b@) == components(base@),
            forall|k: int| 0 <= k < i ==> #[trigger] a@[k]@ == b@[k]@,
        decreases b.len() - i,
    {
        if !text::chars_equal(&a[i], &b[i]) {
            assert(text::views(a@).take(b@.len() as int)[i as int] != text::views(b@)[i as int]);
            return false;
        }
        i = i + 1;
    }
    assert(text::views(a@).take(b@.len() as int) =~= text::views(b@));
    true
}

/// `PathBuf::push` on Unix: an absolute path replaces the base, otherwise it
/// is appended after a `/` (added only when the base does not end in one).
pub open spec fn path_push(base: Seq<char>, p: Seq<char>) -> Seq<char> {
    if p.len() > 0 && p[0] == '/' {
        p
    } else if base.len() == 0 || base.last() == '/' {
        base + p
    } else {
        base + seq!['/'] + p
    }
}

pub fn path_push_exec(base: &Vec<char>, p: &Vec<char>) -> (r: Vec<char>)
    ensures
        r@ == path_push(base@, p@),
{
    let mut out: Vec<char> = Vec::new();
    if p.len() > 0 && p[0] == '/' {
        out = text::sub_vec(p, 0, p.len());
        assert(out@ == p@.subrange(0, p@.len() as int));
        assert(p@.subrange(0, p@.len() as int) == p@);
        return out;
    }
    out = text::sub_vec(base, 0, base.len());
    assert(base@.subrange(0, base@.len() as int) == base@);
    if !(base.len() == 0 || base[base.len() - 1] == '/') {
        out.push('/');
    }
    let mut i: usize = 0;
    let ghost start = out@;
    while i < p.len()
        invariant
            i <= p@.len(),
            out@ == start + p@.take(i as int),
        decreases p.len() - i,
    {
        out.push(p[i]);
        assert(p@.take(i + 1) == p@.take(i as int).push(p@[i as int]));
        i = i + 1;
    }
    assert(p@.take(p@.len() as int) == p@);
    out
}

/// `Path::file_name`: the last component when it names something (not the
/// root, not `.` and not `..`).
pub open spec fn file_name(p: Seq<char>) -> Option<Seq<char>> {
    let c = components(p);
    if c.len() == 0 || c.last() == root() || c.last() == dot() || c.last() == seq!['.', '.'] {
        None
    } else {
        Some(c.last())
    }
}

/// `Path::file_name` on a path given as text.
pub fn file_name_of(p: &str) -> (r: Option<Vec<char>>)
    ensures
        match r {
            Some(n) => file_name(p@) == Some(n@),
            None => file_name(p@) is None,
        },
{
    let c = path_components(p);
    let n = c.len();
    if n == 0 {
        return None;
    }
    let last = &c[n - 1];
    assert(text::views(c@).last() == last@);
    let is_root = last.len() == 1 && last[0] == '/';
    let is_dot = last.len() == 1 && last[0] == '.';
    let is_dotdot = last.len() == 2 && last[0] == '.' && last[1] == '.';
    proof {
        if last@.len() == 1 {
            assert(is_root == (last@ =~= root()));
            assert(is_dot == (last@ =~= dot()));
        } else {
            assert(last@ != root());
            assert(last@ != dot());
        }
        if last@.len() == 2 {
            assert(is_dotdot == (last@ =~= seq!['.', '.']));
        } else {
            assert(last@ != seq!['.', '.']);
        }
    }
    if is_root || is_dot || is_dotdot {
        None
    } else {
        Some(text::sub_vec(last, 0, last.len()))
    }
}

/// Index of the last `.` in a file name (its length when there is none).
pub open spec fn last_dot(n: Seq<char>) -> nat
    decreases n.len(),
{
    if n.len() == 0 {
        0
    } else if n.last() == '.' {
        (n.len() - 1) as nat
    } else if last_dot(n.drop_last()) == n.len() - 1 {
        n.len() as nat
    } else {
        last_dot(n.drop_last())
    }
}

/// `Path::extension`: the part of the file name after its last `.`, unless
/// the name has no `.` or only a leading one.
pub open spec fn extension(p: Seq<char>) -> Option<Seq<char>> {
    match file_name(p) {
        None => None,
        Some(n) => {
            let k = last_dot(n);
            if k >= n.len() || k == 0 {
                None
            } else {
                Some(n.skip(k + 1int))
            }
        },
    }
}

/// `Path::file_stem`: the file name without its extension.
pub open spec fn file_stem(p: Seq<char>) -> Option<Seq<char>> {
    match file_name(p) {
        None => None,
        Some(n) => {
            let k = last_dot(n);
            if k >= n.len() || k == 0 {
                Some(n)
            } else {
                Some(n.take(k as int))
            }
        },
    }
}

fn last_dot_of(n: &Vec<char>) -> (r: usize)
    ensures
        r == last_dot(n@),
        r <= n@.len(),
{
    let mut i: usize = 0;
    let mut found: usize = 0;
    let mut any = false;
    while i < n.len()
        invariant
            i <= n@.len(),
            any ==> found < i,
            last_dot(n@.take(i as int)) == if any {
                found
            } else {
                i
            },
        decreases n.len() - i,
    {
        let ghost t = n@.take(i + 1);
        assert(t.drop_last() == n@.take(i as int));
        assert(t.last() == n@[i as int]);
        if n[i] == '.' {
            found = i;
            any = true;
        }
        i = i + 1;
    }
    assert(n@.take(i as int) == n@);
    if any {
        found
    } else {
        i
    }
}

/// `Path::extension` and `Path::file_stem` of a path given as text.
pub fn stem_and_extension(p: &str) -> (r: (Option<String>, Option<String>))
    ensures
        text::opt_chars(r.0) == file_stem(p@),
        text::opt_chars(r.1) == extension(p@),
{
    match file_name_of(p) {
        None => (None, None),
        Some(n) => {
            let k = last_dot_of(&n);
            if k >= n.len() || k == 0 {
                (Some(text::string_of(&n)), None)
            } else {
                let stem = text::sub_vec(&n, 0, k);
                let ext = text::sub_vec(&n, k + 1, n.len());
                assert(n@.subrange(0, k as int) == n@.take(k as int));
                assert(n@.subrange(k + 1, n@.len() as int) == n@.skip(k + 1));
                (Some(text::string_of(&stem)), Some(text::string_of(&ext)))
            }
        },
    }
}

/// `Path::file_name` of a path given as text, as a string.
pub fn file_name_text(p: &str) -> (r: Option<String>)
    ensures
        text::opt_chars(r) == file_name(p@),
{
    match file_name_of(p) {
        Some(n) => Some(text::string_of(&n)),
        None => None,
    }
}

/// `Path::eq`: the two paths have the same components.
pub fn same_path(a: &str, b: &str) -> (r: bool)
    ensures
        r == (components(a@) == components(b@)),
{
    let x = path_components(a);
    let y = path_components(b);
    if x.len() != y.len() {
        assert(text::views(x@).len() != text::views(y@).len());
        return false;
    }
    let mut i: usize = 0;
    while i < x.len()
        invariant
            i <= x@.len(),
            x@.len() == y@.len(),
            text::views(x@) == components(a@),
            text::views(y@) == components(b@),
            forall|k: int| 0 <= k < i ==> #[trigger] x@[k]@ == y@[k]@,
        decreases x.len() - i,
    {
        if !text::chars_equal(&x[i], &y[i]) {
            assert(text::views(x@)[i as int] != text::views(y@)[i as int]);
            return false;
        }
        i = i + 1;
    }
    assert(text::views(x@) =~= text::views(y@));
    true
}

} // verus!
