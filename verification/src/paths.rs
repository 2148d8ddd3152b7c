//! Purely syntactic path model: canonical forward-slash strings.

use vstd::prelude::*;
use vstd::string::*;

verus! {

/// A path is absolute when it is anchored at the filesystem root.
pub open spec fn is_abs(s: Seq<char>) -> bool {
    s.len() > 0 && s[0] == '/'
}

/// Textual prefix containment: `s` begins with the characters of `prefix`.
pub open spec fn starts_with_text(s: Seq<char>, prefix: Seq<char>) -> bool {
    prefix.len() <= s.len() && s.subrange(0, prefix.len() as int) == prefix
}

pub open spec fn contains_char(s: Seq<char>, c: char) -> bool {
    exists|i: int| 0 <= i < s.len() && s[i] == c
}

/// An empty path segment (`//`) occurs at position `i`.
pub open spec fn empty_seg_at(s: Seq<char>, i: int) -> bool {
    0 <= i < s.len() - 1 && s[i] == '/' && s[i + 1] == '/'
}

/// A segment begins at position `i` (start of the string or right after a slash).
pub open spec fn seg_starts_at(s: Seq<char>, i: int) -> bool {
    0 <= i < s.len() && s[i] != '/' && (i == 0 || s[i - 1] == '/')
}

/// A `.` segment begins at position `i`.
pub open spec fn dot_seg_at(s: Seq<char>, i: int) -> bool {
    seg_starts_at(s, i) && s[i] == '.' && (i + 1 == s.len() || s[i + 1] == '/')
}

/// A `..` segment begins at position `i`.
pub open spec fn dotdot_seg_at(s: Seq<char>, i: int) -> bool {
    seg_starts_at(s, i) && i + 2 <= s.len() && s[i] == '.' && s[i + 1] == '.'
        && (i + 2 == s.len() || s[i + 2] == '/')
}

/// A canonical path component string: forward slashes only, no empty, `.` or
/// `..` segments, and no trailing slash (except for the bare root `/`).
pub open spec fn clean_path(s: Seq<char>) -> bool {
    &&& s.len() > 0
    &&& !contains_char(s, '\\')
    &&& (s.len() == 1 || s[s.len() - 1] != '/')
    &&& (forall|i: int| !empty_seg_at(s, i))
    &&& (forall|i: int| !dot_seg_at(s, i))
    &&& (forall|i: int| !dotdot_seg_at(s, i))
}

/// A canonical absolute path.
pub open spec fn clean_abs(s: Seq<char>) -> bool {
    clean_path(s) && s[0] == '/'
}

/// The run of characters other than `c` at the end of `s`: what follows the
/// last occurrence of `c`, or all of `s` if there is none.
pub open spec fn suffix_after_last(s: Seq<char>, c: char) -> Seq<char>
    decreases s.len(),
{
    if s.len() == 0 {
        s
    } else if s[s.len() - 1] == c {
        Seq::empty()
    } else {
        suffix_after_last(s.drop_last(), c).push(s[s.len() - 1])
    }
}

/// The final path segment: the run of non-slash characters at the end,
/// a single trailing separator ignored as path component parsing does.
pub open spec fn basename_spec(s: Seq<char>) -> Seq<char> {
    suffix_after_last(strip1(s), '/')
}

/// The extension of a file name: what follows the last `.`, absent when
/// there is no `.` or when the only `.` leads the name.
pub open spec fn ext_of(name: Seq<char>) -> Option<Seq<char>> {
    if !contains_char(name, '.') {
        None
    } else if name.len() - suffix_after_last(name, '.').len() - 1 == 0 {
        None
    } else {
        Some(suffix_after_last(name, '.'))
    }
}

/// The file name with its extension (and the `.`) removed.
pub open spec fn stem_of(name: Seq<char>) -> Seq<char> {
    if ext_of(name) is None {
        name
    } else {
        name.subrange(0, name.len() - suffix_after_last(name, '.').len() - 1)
    }
}

/// Append a trailing separator to a non-empty relative spelling when the
/// target is a directory.
pub open spec fn spell(n: Seq<char>, target_is_dir: bool) -> Seq<char> {
    if target_is_dir && n.len() > 0 {
        n.push('/')
    } else {
        n
    }
}

/// Anchor a naked relative path at the current directory, leaving anchored
/// paths (absolute, `.`- or `..`-led) alone.
pub open spec fn anchored(s: Seq<char>) -> Seq<char> {
    if s[0] == '/' || dot_seg_at(s, 0) || dotdot_seg_at(s, 0) {
        s
    } else {
        seq!['.', '/'] + s
    }
}

/// A platform path rendered canonically: every backslash becomes a forward slash.
pub open spec fn norm_spec(s: Seq<char>) -> Seq<char> {
    s.map_values(|c: char| if c == '\\' { '/' } else { c })
}

/// Replace platform path separators with `/`; purely syntactic.
pub fn normalize(path: &str) -> (r: String)
    ensures
        r@ == norm_spec(path@),
{
    let len = path.unicode_len();
    let mut out = String::new();
    let mut i: usize = 0;
    while i < len
        invariant
            i <= len,
            len == path@.len(),
            out@ == norm_spec(path@.subrange(0, i as int)),
        decreases len - i,
    {
        let c = path.get_char(i);
        if c == '\\' {
            push_char(&mut out, '/');
        } else {
            push_char(&mut out, c);
        }
        i = i + 1;
        proof {
            assert(path@.subrange(0, i as int).drop_last() =~= path@.subrange(0, i - 1));
            assert(norm_spec(path@.subrange(0, i as int)).drop_last()
                =~= norm_spec(path@.subrange(0, i - 1)));
            assert(out@ =~= norm_spec(path@.subrange(0, i as int)));
        }
    }
    proof {
        assert(path@.subrange(0, len as int) =~= path@);
    }
    out
}

/// Textual prefix test between two strings.
pub fn str_starts_with(s: &str, prefix: &str) -> (r: bool)
    ensures
        r == starts_with_text(s@, prefix@),
{
    let sl = s.unicode_len();
    let pl = prefix.unicode_len();
    if pl > sl {
        return false;
    }
    let mut i: usize = 0;
    while i < pl
        invariant
            i <= pl,
            pl <= sl,
            sl == s@.len(),
            pl == prefix@.len(),
            forall|j: int| 0 <= j < i ==> s@[j] == prefix@[j],
        decreases pl - i,
    {
        if s.get_char(i) != prefix.get_char(i) {
            proof {
                assert(s@.subrange(0, pl as int)[i as int] != prefix@[i as int]);
            }
            return false;
        }
        i = i + 1;
    }
    proof {
        assert(s@.subrange(0, pl as int) =~= prefix@);
    }
    true
}

/// Component-boundary containment: `p` is `root` itself or lies beneath it,
/// the boundary falling on a separator. The bare root `/` contains every
/// absolute path.
pub open spec fn same_or_under(p: Seq<char>, root: Seq<char>) -> bool {
    if root == seq!['/'] {
        is_abs(p)
    } else {
        p == root || starts_with_text(p, root.push('/'))
    }
}

/// Component-boundary containment test between two strings.
pub fn str_same_or_under(p: &str, root: &str) -> (r: bool)
    ensures
        r == same_or_under(p@, root@),
{
    let pl = p.unicode_len();
    let rl = root.unicode_len();
    if rl == 1 && root.get_char(0) == '/' {
        proof {
            assert(root@ =~= seq!['/']);
        }
        return pl > 0 && p.get_char(0) == '/';
    }
    proof {
        assert(root@ != seq!['/']);
    }
    if !str_starts_with(p, root) {
        proof {
            if p@ == root@ {
                assert(p@.subrange(0, rl as int) =~= root@);
            }
            if starts_with_text(p@, root@.push('/')) {
                assert(p@.subrange(0, rl as int) =~= root@);
            }
        }
        false
    } else if pl == rl {
        proof {
            assert(p@ =~= root@);
        }
        true
    } else if p.get_char(rl) == '/' {
        proof {
            assert(p@.subrange(0, rl + 1) =~= root@.push('/'));
        }
        true
    } else {
        proof {
            if starts_with_text(p@, root@.push('/')) {
                assert(p@.subrange(0, rl + 1)[rl as int] == '/');
            }
        }
        false
    }
}

/// Index of the last occurrence of `c` in `s`, if any.
pub fn rfind_char(s: &str, c: char) -> (r: Option<usize>)
    ensures
        match r {
            Some(k) => k < s@.len() && s@[k as int] == c && forall|j: int|
                k < j < s@.len() ==> s@[j] != c,
            None => !contains_char(s@, c),
        },
{
    let len = s.unicode_len();
    let mut i: usize = len;
    while i > 0
        invariant
            i <= len,
            len == s@.len(),
            forall|j: int| i <= j < s@.len() ==> s@[j] != c,
        decreases i,
    {
        i = i - 1;
        if s.get_char(i) == c {
            return Some(i);
        }
    }
    None
}

pub proof fn lemma_suffix_after(s: Seq<char>, c: char, k: int)
    requires
        0 <= k < s.len(),
        s[k] == c,
        forall|j: int| k < j < s.len() ==> s[j] != c,
    ensures
        suffix_after_last(s, c) =~= s.subrange(k + 1, s.len() as int),
    decreases s.len(),
{
    if k == s.len() - 1 {
        assert(s.subrange(k + 1, s.len() as int) =~= Seq::<char>::empty());
    } else {
        lemma_suffix_after(s.drop_last(), c, k);
        assert(s.drop_last().subrange(k + 1, s.len() - 1) =~= s.subrange(k + 1, s.len() - 1));
        assert(suffix_after_last(s, c) =~= s.subrange(k + 1, s.len() as int));
    }
}

pub proof fn lemma_suffix_whole(s: Seq<char>, c: char)
    requires
        !contains_char(s, c),
    ensures
        suffix_after_last(s, c) =~= s,
    decreases s.len(),
{
    if s.len() > 0 {
        assert(s[s.len() - 1] != c);
        assert(!contains_char(s.drop_last(), c));
        lemma_suffix_whole(s.drop_last(), c);
    }
}

/// Where the last occurrence of `c` sits: right before the suffix it delimits.
pub proof fn lemma_last_occurrence(s: Seq<char>, c: char)
    requires
        contains_char(s, c),
    ensures
        ({
            let k = s.len() - suffix_after_last(s, c).len() - 1;
            0 <= k < s.len() && s[k] == c && forall|j: int| k < j < s.len() ==> s[j] != c
        }),
    decreases s.len(),
{
    if s[s.len() - 1] == c {
    } else {
        let i = choose|i: int| 0 <= i < s.len() && s[i] == c;
        assert(i < s.len() - 1);
        assert(s.drop_last()[i] == c);
        assert(contains_char(s.drop_last(), c));
        lemma_last_occurrence(s.drop_last(), c);
        let k = s.len() - suffix_after_last(s, c).len() - 1;
        assert(k == s.drop_last().len() - suffix_after_last(s.drop_last(), c).len() - 1);
        assert(s[k] == s.drop_last()[k]);
        assert forall|j: int| k < j < s.len() implies s[j] != c by {
            if j < s.len() - 1 {
                assert(s.drop_last()[j] != c);
                assert(s[j] == s.drop_last()[j]);
            }
        }
    }
}

/// A prefix of a canonical absolute path cut at a separator is itself
/// canonical absolute.
pub proof fn lemma_clean_prefix_at_slash(s: Seq<char>, k: int)
    requires
        clean_abs(s),
        0 < k < s.len(),
        s[k] == '/',
    ensures
        clean_abs(s.subrange(0, k)),
{
    let p = s.subrange(0, k);
    assert(!contains_char(p, '\\')) by {
        if contains_char(p, '\\') {
            let i = choose|i: int| 0 <= i < p.len() && p[i] == '\\';
            assert(s[i] == '\\');
            assert(contains_char(s, '\\'));
        }
    }
    if p.len() > 1 {
        assert(p[p.len() - 1] != '/') by {
            if s[k - 1] == '/' {
                assert(empty_seg_at(s, k - 1));
            }
        }
    }
    assert forall|i: int| !empty_seg_at(p, i) by {
        if empty_seg_at(p, i) {
            assert(empty_seg_at(s, i));
        }
    }
    assert forall|i: int| !dot_seg_at(p, i) by {
        if dot_seg_at(p, i) {
            assert(dot_seg_at(s, i));
        }
    }
    assert forall|i: int| !dotdot_seg_at(p, i) by {
        if dotdot_seg_at(p, i) {
            assert(dotdot_seg_at(s, i));
        }
    }
}

/// An ordinary path segment: non-empty, with no separator in it, and not a
/// `.` or `..` traversal.
pub open spec fn simple_seg(seg: Seq<char>) -> bool {
    &&& seg.len() > 0
    &&& !contains_char(seg, '/')
    &&& !contains_char(seg, '\\')
    &&& seg != seq!['.']
    &&& seg != seq!['.', '.']
}

/// A separator-free string holds no separators to count.
pub proof fn lemma_slash_count_zero(s: Seq<char>)
    requires
        !contains_char(s, '/'),
    ensures
        slash_count(s) == 0,
    decreases s.len(),
{
    if s.len() > 0 {
        assert(s[s.len() - 1] != '/');
        assert(!contains_char(s.drop_last(), '/'));
        lemma_slash_count_zero(s.drop_last());
    }
}

/// Appending `/seg` to a canonical path (other than the bare root) yields a
/// canonical path again, whose last segment is `seg`.
pub proof fn lemma_clean_append_seg(base: Seq<char>, seg: Seq<char>)
    requires
        clean_path(base),
        base[base.len() - 1] != '/',
        simple_seg(seg),
    ensures
        clean_path(base + seq!['/'] + seg),
        (base + seq!['/'] + seg).subrange(0, base.len() as int) == base,
        (base + seq!['/'] + seg).subrange(base.len() + 1int, (base + seq!['/'] + seg).len() as int)
            == seg,
        starts_with_text(base + seq!['/'] + seg, base.push('/')),
        (base + seq!['/'] + seg)[0] == base[0],
        (base + seq!['/'] + seg).len() > 1,
        (base + seq!['/'] + seg)[(base + seq!['/'] + seg).len() - 1] != '/',
{
    let p = base + seq!['/'] + seg;
    let b = base.len() as int;
    assert(p.len() == base.len() + 1 + seg.len());
    assert(forall|i: int| 0 <= i < b ==> p[i] == base[i]);
    assert(p[b] == '/');
    assert(forall|i: int| b < i < p.len() ==> p[i] == seg[i - b - 1]);
    assert(p.subrange(0, b) =~= base);
    assert(p.subrange(b + 1, p.len() as int) =~= seg);
    assert(p.subrange(0, b + 1) =~= base.push('/'));
    assert(seg[seg.len() - 1] != '/');
    assert(!contains_char(p, '\\')) by {
        if contains_char(p, '\\') {
            let i = choose|i: int| 0 <= i < p.len() && p[i] == '\\';
            if i < b {
                assert(contains_char(base, '\\'));
            } else if i > b {
                assert(contains_char(seg, '\\'));
            }
        }
    }
    assert forall|i: int| !empty_seg_at(p, i) by {
        if empty_seg_at(p, i) {
            if i < b - 1 {
                assert(empty_seg_at(base, i));
            } else if i == b - 1 {
                assert(base[base.len() - 1] == '/');
            } else if i == b {
                assert(seg[0] == '/');
                assert(contains_char(seg, '/'));
            } else {
                assert(seg[i - b - 1] == '/');
                assert(contains_char(seg, '/'));
            }
        }
    }
    assert forall|i: int| !dot_seg_at(p, i) by {
        if dot_seg_at(p, i) {
            if i < b {
                if i + 1 < b {
                    assert(dot_seg_at(base, i));
                } else {
                    assert(i + 1 == b);
                    assert(dot_seg_at(base, i));
                }
            } else if i == b + 1 {
                if i + 1 == p.len() {
                    assert(seg =~= seq!['.']);
                } else {
                    assert(seg[1] == '/');
                    assert(contains_char(seg, '/'));
                }
            } else if i > b + 1 {
                assert(p[i - 1] == '/');
                assert(seg[i - b - 2] == '/');
                assert(contains_char(seg, '/'));
            }
        }
    }
    assert forall|i: int| !dotdot_seg_at(p, i) by {
        if dotdot_seg_at(p, i) {
            if i < b {
                if i + 2 < b {
                    assert(dotdot_seg_at(base, i));
                } else if i + 2 == b {
                    assert(dotdot_seg_at(base, i));
                } else {
                    assert(i + 1 == b);
                    assert(p[i + 1] == '/');
                }
            } else if i == b + 1 {
                if i + 2 == p.len() {
                    assert(seg =~= seq!['.', '.']);
                } else {
                    assert(seg[2] == '/');
                    assert(contains_char(seg, '/'));
                }
            } else if i > b + 1 {
                assert(p[i - 1] == '/');
                assert(seg[i - b - 2] == '/');
                assert(contains_char(seg, '/'));
            }
        }
    }
}

/// Normalization always yields `/`-separated text: no backslash survives it.
pub proof fn lemma_norm_no_backslash(s: Seq<char>)
    ensures
        !contains_char(norm_spec(s), '\\'),
{
    if contains_char(norm_spec(s), '\\') {
        let i = choose|i: int| 0 <= i < norm_spec(s).len() && norm_spec(s)[i] == '\\';
        assert(norm_spec(s)[i] == if s[i] == '\\' {
            '/'
        } else {
            s[i]
        });
    }
}

/// Anchoring introduces no backslash.
pub proof fn lemma_anchored_no_backslash(s: Seq<char>)
    requires
        s.len() > 0,
        !contains_char(s, '\\'),
    ensures
        !contains_char(anchored(s), '\\'),
{
    if contains_char(anchored(s), '\\') {
        let i = choose|i: int| 0 <= i < anchored(s).len() && anchored(s)[i] == '\\';
        if anchored(s) == s {
            assert(contains_char(s, '\\'));
        } else {
            assert(anchored(s) == seq!['.', '/'] + s);
            assert(i >= 2);
            assert(s[i - 2] == '\\');
            assert(contains_char(s, '\\'));
        }
    }
}

/// The final path segment of `s` as a fresh string.
pub fn base_name(s: &str) -> (r: String)
    ensures
        r@ == basename_spec(s@),
{
    let full = s.unicode_len();
    let m: &str = if full > 1 && s.get_char(full - 1) == '/' {
        s.substring_char(0, full - 1)
    } else {
        s
    };
    proof {
        assert(m@ =~= strip1(s@));
    }
    let len = m.unicode_len();
    match rfind_char(m, '/') {
        Some(k) => {
            proof {
                lemma_suffix_after(m@, '/', k as int);
            }
            let sub = m.substring_char(k + 1, len);
            sub.to_owned()
        },
        None => {
            proof {
                lemma_suffix_whole(m@, '/');
            }
            m.to_owned()
        },
    }
}

/// `norm_spec` leaves a backslash-free string unchanged.
pub proof fn lemma_norm_id(s: Seq<char>)
    requires
        !contains_char(s, '\\'),
    ensures
        norm_spec(s) =~= s,
{
    assert forall|i: int| 0 <= i < s.len() implies norm_spec(s)[i] == s[i] by {
        assert(s[i] != '\\');
    }
}

/// How `Path::join` combines a base with one further component: an absolute
/// component replaces the base; otherwise a separator is inserted as needed.
pub open spec fn join_spec(b: Seq<char>, s: Seq<char>) -> Seq<char> {
    if is_abs(s) {
        s
    } else if b.len() == 0 {
        s
    } else if b[b.len() - 1] == '/' {
        b + s
    } else {
        b.push('/') + s
    }
}

pub fn join_segment(base: &str, seg: &str) -> (r: String)
    ensures
        r@ == join_spec(base@, seg@),
{
    let bl = base.unicode_len();
    let seg_abs = seg.unicode_len() > 0 && seg.get_char(0) == '/';
    if seg_abs || bl == 0 {
        seg.to_owned()
    } else if base.get_char(bl - 1) == '/' {
        base.to_owned().concat(seg)
    } else {
        let mut out = base.to_owned();
        push_char(&mut out, '/');
        out.concat(seg)
    }
}

/// A base path joined with successive components, as repeated `Path::join`.
pub open spec fn joined(base: Seq<char>, segs: Seq<Seq<char>>) -> Seq<char>
    decreases segs.len(),
{
    if segs.len() == 0 {
        base
    } else {
        joined(join_spec(base, segs[0]), segs.subrange(1, segs.len() as int))
    }
}

/// Drop a single trailing slash, as path component parsing does; the bare
/// root `/` stays itself.
pub open spec fn strip1(s: Seq<char>) -> Seq<char> {
    if s.len() > 1 && s[s.len() - 1] == '/' {
        s.drop_last()
    } else {
        s
    }
}

/// `..` repeated `k` times, `/`-separated.
pub open spec fn dotdots(k: nat) -> Seq<char>
    decreases k,
{
    if k == 0 {
        Seq::empty()
    } else if k == 1 {
        seq!['.', '.']
    } else {
        dotdots((k - 1) as nat) + seq!['/', '.', '.']
    }
}

/// Number of `/` characters in `s`.
pub open spec fn slash_count(s: Seq<char>) -> nat
    decreases s.len(),
{
    if s.len() == 0 {
        0
    } else if s[s.len() - 1] == '/' {
        slash_count(s.drop_last()) + 1
    } else {
        slash_count(s.drop_last())
    }
}

/// The containing directory's path: everything before the final segment.
/// `None` for the root itself or an empty path.
pub open spec fn parent_of(n: Seq<char>) -> Option<Seq<char>> {
    let m = strip1(n);
    if m.len() == 0 || m == seq!['/'] {
        None
    } else if !contains_char(m, '/') {
        Some(Seq::empty())
    } else {
        let k = m.len() - suffix_after_last(m, '/').len() - 1;
        if k == 0 {
            Some(seq!['/'])
        } else {
            Some(m.subrange(0, k))
        }
    }
}

/// The containing directory's path, textually.
pub fn parent_str(n: &str) -> (r: Option<String>)
    ensures
        r is Some <==> parent_of(n@) is Some,
        r is Some ==> r.unwrap()@ == parent_of(n@).unwrap(),
{
    let len = n.unicode_len();
    let m: &str = if len > 1 && n.get_char(len - 1) == '/' {
        n.substring_char(0, len - 1)
    } else {
        n
    };
    proof {
        assert(m@ =~= strip1(n@));
    }
    let ml = m.unicode_len();
    if ml == 0 || (ml == 1 && m.get_char(0) == '/') {
        proof {
            if ml == 1 {
                assert(m@ =~= seq!['/']);
            }
        }
        return None;
    }
    proof {
        assert(m@ != seq!['/']);
    }
    match rfind_char(m, '/') {
        None => Some(String::new()),
        Some(k) => {
            proof {
                lemma_suffix_after(m@, '/', k as int);
            }
            if k == 0 {
                let mut root = String::new();
                push_char(&mut root, '/');
                proof {
                    assert(root@ =~= seq!['/']);
                }
                Some(root)
            } else {
                Some(m.substring_char(0, k).to_owned())
            }
        },
    }
}

/// Whether `s` is in canonical component form (see `clean_path`).
pub fn is_clean(s: &str) -> (r: bool)
    ensures
        r == clean_path(s@),
{
    let len = s.unicode_len();
    if len == 0 {
        return false;
    }
    let mut i: usize = 0;
    while i < len
        invariant
            i <= len,
            len == s@.len(),
            forall|j: int| 0 <= j < i ==> s@[j] != '\\',
            forall|j: int| j < i ==> !empty_seg_at(s@, j),
            forall|j: int| j < i ==> !dot_seg_at(s@, j),
            forall|j: int| j < i ==> !dotdot_seg_at(s@, j),
            forall|j: int| 0 <= j < i && j == len - 1 && len > 1 ==> s@[j] != '/',
        decreases len - i,
    {
        let c = s.get_char(i);
        if c == '\\' {
            return false;
        }
        if c == '/' {
            if i + 1 == len && len > 1 {
                return false;
            }
            if i + 1 < len && s.get_char(i + 1) == '/' {
                proof {
                    assert(empty_seg_at(s@, i as int));
                }
                return false;
            }
        }
        if c == '.' && (i == 0 || s.get_char(i - 1) == '/') {
            if i + 1 == len || s.get_char(i + 1) == '/' {
                proof {
                    assert(dot_seg_at(s@, i as int));
                }
                return false;
            }
            if s.get_char(i + 1) == '.' && (i + 2 == len || s.get_char(i + 2) == '/') {
                proof {
                    assert(dotdot_seg_at(s@, i as int));
                }
                return false;
            }
        }
        i = i + 1;
    }
    proof {
        assert forall|j: int| !empty_seg_at(s@, j) by {
            if 0 <= j < len {
            }
        }
        assert forall|j: int| !dot_seg_at(s@, j) by {
            if 0 <= j < len {
            }
        }
        assert forall|j: int| !dotdot_seg_at(s@, j) by {
            if 0 <= j < len {
            }
        }
    }
    true
}

/// Relies on `String::push`: appends exactly one character.
#[verifier::external_body]
pub(crate) fn push_char(s: &mut String, c: char)
    ensures
        final(s)@ == old(s)@.push(c),
{
    s.push(c);
}

} // verus!
