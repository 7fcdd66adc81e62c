//! Order and shape of path strings.
//!
//! Panel listings are ordered by the full display string of each entry, so the
//! crate needs a lexicographic order on character sequences, and the panels
//! navigate by pushing a directory name onto a path and normalizing the
//! result, so it also needs a small theory of path components: splitting on
//! the separator, dropping `.` and empty components, resolving `..`, and
//! reading the final component of a path.

use vstd::prelude::*;

verus! {

/// Lexicographic order on character sequences, comparing scalar values
/// position by position; a proper prefix comes first.
pub open spec fn lex_le(a: Seq<char>, b: Seq<char>) -> bool
    decreases a.len(),
{
    if a.len() == 0 {
        true
    } else if b.len() == 0 {
        false
    } else if a[0] != b[0] {
        a[0] < b[0]
    } else {
        lex_le(a.drop_first(), b.drop_first())
    }
}

/// Any two character sequences are comparable.
pub proof fn lemma_lex_le_total(a: Seq<char>, b: Seq<char>)
    ensures
        lex_le(a, b) || lex_le(b, a),
    decreases a.len(),
{
    if a.len() == 0 {
    } else if b.len() == 0 {
    } else if a[0] == b[0] {
        lemma_lex_le_total(a.drop_first(), b.drop_first());
    }
}

/// The lexicographic order is transitive.
pub proof fn lemma_lex_le_trans(a: Seq<char>, b: Seq<char>, c: Seq<char>)
    requires
        lex_le(a, b),
        lex_le(b, c),
    ensures
        lex_le(a, c),
    decreases a.len(),
{
    if a.len() == 0 {
    } else {
        if a[0] == b[0] && b[0] == c[0] {
            lemma_lex_le_trans(a.drop_first(), b.drop_first(), c.drop_first());
        }
    }
}

/// Compares two strings in the order of `lex_le`.
pub fn str_le(a: &str, b: &str) -> (r: bool)
    ensures
        r == lex_le(a@, b@),
{
    let an: usize = a.unicode_len();
    let bn: usize = b.unicode_len();
    let mut i: usize = 0;
    proof {
        assert(a@.skip(0) =~= a@);
        assert(b@.skip(0) =~= b@);
    }
    while i < an && i < bn
        invariant
            i <= an,
            i <= bn,
            an == a@.len(),
            bn == b@.len(),
            lex_le(a@, b@) == lex_le(a@.skip(i as int), b@.skip(i as int)),
        decreases an - i,
    {
        let ca = a.get_char(i);
        let cb = b.get_char(i);
        if ca != cb {
            proof {
                assert(a@.skip(i as int)[0] == ca);
                assert(b@.skip(i as int)[0] == cb);
            }
            return ca < cb;
        }
        proof {
            assert(a@.skip(i as int).drop_first() =~= a@.skip(i + 1));
            assert(b@.skip(i as int).drop_first() =~= b@.skip(i + 1));
        }
        i = i + 1;
    }
    proof {
        if i == an {
            assert(a@.skip(i as int).len() == 0);
        } else {
            assert(b@.skip(i as int).len() == 0);
            assert(a@.skip(i as int).len() > 0);
        }
    }
    an <= bn
}

/// The components of a path: the text between the `/` separators, in order.
/// An empty path has one empty component, and every separator opens a new
/// (possibly empty) component.
pub open spec fn split_path(s: Seq<char>) -> Seq<Seq<char>>
    decreases s.len(),
{
    if s.len() == 0 {
        seq![Seq::<char>::empty()]
    } else if s.last() == '/' {
        split_path(s.drop_last()).push(Seq::<char>::empty())
    } else {
        let r = split_path(s.drop_last());
        r.update(r.len() - 1, r.last().push(s.last()))
    }
}

pub proof fn lemma_split_path_len(s: Seq<char>)
    ensures
        split_path(s).len() >= 1,
    decreases s.len(),
{
    if s.len() > 0 {
        lemma_split_path_len(s.drop_last());
    }
}

/// The component `.`, which names the directory itself.
pub open spec fn is_cur_comp(c: Seq<char>) -> bool {
    c.len() == 1 && c[0] == '.'
}

/// The component `..`, which names the parent directory.
pub open spec fn is_parent_comp(c: Seq<char>) -> bool {
    c.len() == 2 && c[0] == '.' && c[1] == '.'
}

/// A component that names something: neither empty nor `.`.
pub open spec fn is_real_comp(c: Seq<char>) -> bool {
    c.len() > 0 && !is_cur_comp(c)
}

/// Resolves a component sequence left to right: empty and `.` components are
/// dropped, `..` pops the preceding component when there is one; in an
/// absolute path a leading `..` stays at the root, in a relative path it is
/// kept.
pub open spec fn norm_stack(cs: Seq<Seq<char>>, abs: bool) -> Seq<Seq<char>>
    decreases cs.len(),
{
    if cs.len() == 0 {
        Seq::empty()
    } else {
        let r = norm_stack(cs.drop_last(), abs);
        let c = cs.last();
        if !is_real_comp(c) {
            r
        } else if is_parent_comp(c) {
            if r.len() > 0 && !is_parent_comp(r.last()) {
                r.drop_last()
            } else if abs {
                r
            } else {
                r.push(c)
            }
        } else {
            r.push(c)
        }
    }
}

/// The components joined back with `/` between them, without a leading
/// separator.
pub open spec fn join_comps(cs: Seq<Seq<char>>) -> Seq<char>
    decreases cs.len(),
{
    if cs.len() == 0 {
        Seq::empty()
    } else if cs.len() == 1 {
        cs[0]
    } else {
        join_comps(cs.drop_last()) + seq!['/'] + cs.last()
    }
}

/// Whether a path is absolute.
pub open spec fn is_abs(s: Seq<char>) -> bool {
    s.len() > 0 && s[0] == '/'
}

/// The normal form of a path: its components resolved by `norm_stack` and
/// joined again, with the leading separator kept for an absolute path.
pub open spec fn normalize_spec(s: Seq<char>) -> Seq<char> {
    let r = norm_stack(split_path(s), is_abs(s));
    if is_abs(s) {
        seq!['/'] + join_comps(r)
    } else {
        join_comps(r)
    }
}

/// Appending one path to another: an absolute right side replaces the left
/// side, anything else is attached with a separator.
pub open spec fn join_path(base: Seq<char>, rel: Seq<char>) -> Seq<char> {
    if is_abs(rel) {
        rel
    } else if base.len() == 0 {
        rel
    } else {
        base + seq!['/'] + rel
    }
}

/// The last component of the sequence that names something, if any.
pub open spec fn last_real_comp(cs: Seq<Seq<char>>) -> Option<Seq<char>>
    decreases cs.len(),
{
    if cs.len() == 0 {
        None
    } else if is_real_comp(cs.last()) {
        Some(cs.last())
    } else {
        last_real_comp(cs.drop_last())
    }
}

/// The display name of the entry a path points at: its last named component,
/// or `..` when the path ends in the parent component or names no component
/// at all.
pub open spec fn file_name_spec(s: Seq<char>) -> Seq<char> {
    match last_real_comp(split_path(s)) {
        None => seq!['.', '.'],
        Some(c) => if is_parent_comp(c) {
            seq!['.', '.']
        } else {
            c
        },
    }
}

/// Splits a string into its `/`-separated components.
pub fn split_slash(s: &str) -> (r: Vec<String>)
    ensures
        r.deep_view() == split_path(s@),
        r.len() >= 1,
{
    let n: usize = s.unicode_len();
    let mut comps: Vec<String> = Vec::new();
    let mut start: usize = 0;
    let mut i: usize = 0;
    proof {
        assert(s@.take(0) =~= Seq::<char>::empty());
        assert(s@.subrange(0, 0) =~= Seq::<char>::empty());
    }
    while i < n
        invariant
            start <= i <= n,
            n == s@.len(),
            split_path(s@.take(i as int)).len() >= 1,
            comps.deep_view() =~= split_path(s@.take(i as int)).drop_last(),
            split_path(s@.take(i as int)).last() =~= s@.subrange(start as int, i as int),
        decreases n - i,
    {
        proof {
            assert(s@.take(i + 1).drop_last() =~= s@.take(i as int));
            assert(s@.take(i + 1).last() == s@[i as int]);
            lemma_split_path_len(s@.take(i + 1));
        }
        let c = s.get_char(i);
        if c == '/' {
            comps.push(String::from_str(s.substring_char(start, i)));
            start = i + 1;
            proof {
                let pre = split_path(s@.take(i as int));
                assert(split_path(s@.take(i + 1)) =~= pre.push(Seq::<char>::empty()));
                assert(split_path(s@.take(i + 1)).drop_last() =~= pre);
                assert(pre =~= pre.drop_last().push(pre.last()));
                assert(comps.deep_view() =~= pre);
                assert(s@.subrange(start as int, start as int) =~= Seq::<char>::empty());
            }
        } else {
            proof {
                let pre = split_path(s@.take(i as int));
                let post = split_path(s@.take(i + 1));
                assert(post =~= pre.update(pre.len() - 1, pre.last().push(s@[i as int])));
                assert(post.drop_last() =~= pre.drop_last());
                assert(post.last() =~= s@.subrange(start as int, i as int).push(s@[i as int]));
                assert(s@.subrange(start as int, i as int).push(s@[i as int]) =~= s@.subrange(
                    start as int,
                    i + 1,
                ));
            }
        }
        i = i + 1;
    }
    proof {
        assert(s@.take(n as int) =~= s@);
        lemma_split_path_len(s@);
    }
    comps.push(String::from_str(s.substring_char(start, n)));
    proof {
        assert(comps.deep_view() =~= split_path(s@).drop_last().push(split_path(s@).last()));
        assert(split_path(s@).drop_last().push(split_path(s@).last()) =~= split_path(s@));
    }
    comps
}

fn comp_is_real(c: &String) -> (r: bool)
    ensures
        r == is_real_comp(c@),
{
    let n: usize = c.as_str().unicode_len();
    if n == 0 {
        false
    } else if n == 1 {
        c.as_str().get_char(0) != '.'
    } else {
        true
    }
}

fn comp_is_parent(c: &String) -> (r: bool)
    ensures
        r == is_parent_comp(c@),
{
    let n: usize = c.as_str().unicode_len();
    n == 2 && c.as_str().get_char(0) == '.' && c.as_str().get_char(1) == '.'
}

/// Rewrites a path into the normal form of `normalize_spec`.
pub fn normalize(s: &str) -> (r: String)
    ensures
        r@ == normalize_spec(s@),
{
    let comps = split_slash(s);
    let abs = s.unicode_len() > 0 && s.get_char(0) == '/';
    let mut stack: Vec<String> = Vec::new();
    let mut i: usize = 0;
    proof {
        assert(comps.deep_view().take(0) =~= Seq::<Seq<char>>::empty());
    }
    while i < comps.len()
        invariant
            i <= comps.len(),
            comps.deep_view() == split_path(s@),
            abs == is_abs(s@),
            stack.deep_view() =~= norm_stack(comps.deep_view().take(i as int), abs),
        decreases comps.len() - i,
    {
        proof {
            assert(comps.deep_view().take(i + 1).drop_last() =~= comps.deep_view().take(i as int));
            assert(comps.deep_view().take(i + 1).last() == comps.deep_view()[i as int]);
            assert(comps.deep_view()[i as int] == comps[i as int]@);
        }
        let c = &comps[i];
        if comp_is_real(c) {
            if comp_is_parent(c) {
                let do_pop = stack.len() > 0 && !comp_is_parent(&stack[stack.len() - 1]);
                if do_pop {
                    proof {
                        assert(stack.deep_view().last() == stack[stack.len() - 1]@);
                    }
                    let _ = stack.pop();
                    proof {
                        assert(stack.deep_view() =~= norm_stack(
                            comps.deep_view().take(i + 1),
                            abs,
                        ));
                    }
                } else if abs {
                    proof {
                        if stack.len() > 0 {
                            assert(stack.deep_view().last() == stack[stack.len() - 1]@);
                        }
                    }
                } else {
                    proof {
                        if stack.len() > 0 {
                            assert(stack.deep_view().last() == stack[stack.len() - 1]@);
                        }
                    }
                    stack.push(c.clone());
                    proof {
                        assert(stack.deep_view() =~= norm_stack(
                            comps.deep_view().take(i + 1),
                            abs,
                        ));
                    }
                }
            } else {
                stack.push(c.clone());
                proof {
                    assert(stack.deep_view() =~= norm_stack(comps.deep_view().take(i + 1), abs));
                }
            }
        }
        i = i + 1;
    }
    proof {
        assert(comps.deep_view().take(comps.len() as int) =~= comps.deep_view());
    }
    let mut out = String::new();
    let mut k: usize = 0;
    while k < stack.len()
        invariant
            k <= stack.len(),
            stack.deep_view() =~= norm_stack(split_path(s@), is_abs(s@)),
            out@ =~= join_comps(stack.deep_view().take(k as int)),
        decreases stack.len() - k,
    {
        proof {
            assert(stack.deep_view().take(k + 1).drop_last() =~= stack.deep_view().take(k as int));
            assert(stack.deep_view().take(k + 1).last() == stack[k as int]@);
        }
        if k > 0 {
            out = out.concat("/");
            proof {
                reveal_strlit("/");
                assert("/"@ =~= seq!['/']);
            }
        }
        out = out.concat(stack[k].as_str());
        proof {
            assert(out@ =~= join_comps(stack.deep_view().take(k + 1)));
        }
        k = k + 1;
    }
    proof {
        assert(stack.deep_view().take(stack.len() as int) =~= stack.deep_view());
    }
    if abs {
        let r = String::from_str("/").concat(out.as_str());
        proof {
            reveal_strlit("/");
            assert("/"@ =~= seq!['/']);
            assert(r@ =~= normalize_spec(s@));
        }
        r
    } else {
        out
    }
}

/// Appends one path to another as `join_path` describes.
pub fn join_push(base: &str, rel: &str) -> (r: String)
    ensures
        r@ == join_path(base@, rel@),
{
    if rel.unicode_len() > 0 && rel.get_char(0) == '/' {
        String::from_str(rel)
    } else if base.unicode_len() == 0 {
        String::from_str(rel)
    } else {
        let r = String::from_str(base).concat("/").concat(rel);
        proof {
            reveal_strlit("/");
            assert("/"@ =~= seq!['/']);
            assert(r@ =~= base@ + seq!['/'] + rel@);
        }
        r
    }
}

/// Reads the display name of the entry a path points at, as
/// `file_name_spec` describes.
pub fn path_file_name(s: &str) -> (r: String)
    ensures
        r@ == file_name_spec(s@),
{
    let comps = split_slash(s);
    let mut found: usize = 0;
    let mut found_any: bool = false;
    let mut i: usize = 0;
    proof {
        assert(comps.deep_view().take(0) =~= Seq::<Seq<char>>::empty());
    }
    while i < comps.len()
        invariant
            i <= comps.len(),
            comps.deep_view() == split_path(s@),
            found_any ==> found < i && last_real_comp(comps.deep_view().take(i as int)) == Some(
                comps.deep_view()[found as int],
            ),
            !found_any ==> last_real_comp(comps.deep_view().take(i as int)) is None,
        decreases comps.len() - i,
    {
        proof {
            assert(comps.deep_view().take(i + 1).drop_last() =~= comps.deep_view().take(i as int));
            assert(comps.deep_view().take(i + 1).last() == comps.deep_view()[i as int]);
            assert(comps.deep_view()[i as int] == comps[i as int]@);
        }
        if comp_is_real(&comps[i]) {
            found = i;
            found_any = true;
        }
        i = i + 1;
    }
    proof {
        assert(comps.deep_view().take(comps.len() as int) =~= comps.deep_view());
    }
    if !found_any {
        let r = String::from_str("..");
        proof {
            reveal_strlit("..");
            assert(r@ =~= seq!['.', '.']);
        }
        r
    } else {
        proof {
            assert(comps.deep_view()[found as int] == comps[found as int]@);
        }
        if comp_is_parent(&comps[found]) {
            let r = String::from_str("..");
            proof {
                reveal_strlit("..");
                assert(r@ =~= seq!['.', '.']);
            }
            r
        } else {
            comps[found].clone()
        }
    }
}

} // verus!
