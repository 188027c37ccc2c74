//! Unix path text as `std::path` reads it: the file name of a path, its stem
//! and extension, and the replacement of its file name.
//!
//! A path is held as its text, with `/` as the only separator.

use vstd::prelude::*;

verus! {

/// The text that `Path::components` looks at when it reads a path from the
/// back: trailing separators and trailing `.` components are skipped (a
/// lone root `/` stays).
pub open spec fn trim_trailing(p: Seq<char>) -> Seq<char>
    decreases p.len(),
{
    if p.len() > 1 && p.last() == '/' {
        trim_trailing(p.drop_last())
    } else if p.len() >= 2 && p.last() == '.' && p[p.len() - 2] == '/' {
        trim_trailing(p.drop_last())
    } else {
        p
    }
}

/// The index just after the last separator of `t` (0 when there is none).
pub open spec fn segment_start(t: Seq<char>) -> int
    decreases t.len(),
{
    if t.len() == 0 {
        0
    } else if t.last() == '/' {
        t.len() as int
    } else {
        segment_start(t.drop_last())
    }
}

/// The last component of a path, as written.
pub open spec fn last_segment(p: Seq<char>) -> Seq<char> {
    let t = trim_trailing(p);
    t.subrange(segment_start(t), t.len() as int)
}

/// `Path::file_name`: the last component, unless it is empty, `.` or `..`.
pub open spec fn file_name(p: Seq<char>) -> Option<Seq<char>> {
    let seg = last_segment(p);
    if seg.len() == 0 || seg == seq!['.'] || seg == seq!['.', '.'] {
        None
    } else {
        Some(seg)
    }
}

/// The text that `Path::parent` gives when the path has a file name.
pub open spec fn parent_text(p: Seq<char>) -> Seq<char> {
    let t = trim_trailing(p);
    trim_trailing(t.subrange(0, segment_start(t)))
}

/// `PathBuf::push` of a relative component: a separator is put in between
/// unless the base is empty or already ends with one.
pub open spec fn push_component(base: Seq<char>, name: Seq<char>) -> Seq<char> {
    if base.len() > 0 && base.last() != '/' {
        base + seq!['/'] + name
    } else {
        base + name
    }
}

/// `Path::with_file_name` with a relative name.
pub open spec fn with_file_name(p: Seq<char>, name: Seq<char>) -> Seq<char> {
    if file_name(p) is Some {
        push_component(parent_text(p), name)
    } else {
        push_component(p, name)
    }
}

/// The index of the last `.` of `name`, or -1 when it has none.
pub open spec fn last_dot(name: Seq<char>) -> int
    decreases name.len(),
{
    if name.len() == 0 {
        -1
    } else if name.last() == '.' {
        name.len() - 1
    } else {
        last_dot(name.drop_last())
    }
}

/// The stem of a file name: the part before the last `.`, or the whole name
/// when it has no `.` or only a leading one.
pub open spec fn name_stem(name: Seq<char>) -> Seq<char> {
    let d = last_dot(name);
    if d <= 0 {
        name
    } else {
        name.subrange(0, d)
    }
}

/// The extension of a file name: the part after the last `.`, when that `.`
/// is not the first character.
pub open spec fn name_extension(name: Seq<char>) -> Option<Seq<char>> {
    let d = last_dot(name);
    if d <= 0 {
        None
    } else {
        Some(name.subrange(d + 1, name.len() as int))
    }
}

/// `Path::file_stem`.
pub open spec fn file_stem(p: Seq<char>) -> Option<Seq<char>> {
    match file_name(p) {
        Some(name) => Some(name_stem(name)),
        None => None,
    }
}

/// `Path::extension`.
pub open spec fn extension(p: Seq<char>) -> Option<Seq<char>> {
    match file_name(p) {
        Some(name) => name_extension(name),
        None => None,
    }
}

/// Trimming a prefix of `p` gives a prefix of `p`.
pub proof fn lemma_trim_is_prefix(p: Seq<char>)
    ensures
        trim_trailing(p).len() <= p.len(),
        trim_trailing(p) =~= p.subrange(0, trim_trailing(p).len() as int),
    decreases p.len(),
{
    if p.len() > 1 && p.last() == '/' {
        lemma_trim_is_prefix(p.drop_last());
    } else if p.len() >= 2 && p.last() == '.' && p[p.len() - 2] == '/' {
        lemma_trim_is_prefix(p.drop_last());
    }
}

/// Trimming twice trims no more than once.
pub proof fn lemma_trim_idempotent(p: Seq<char>)
    ensures
        trim_trailing(trim_trailing(p)) == trim_trailing(p),
    decreases p.len(),
{
    if p.len() > 1 && p.last() == '/' {
        lemma_trim_idempotent(p.drop_last());
    } else if p.len() >= 2 && p.last() == '.' && p[p.len() - 2] == '/' {
        lemma_trim_idempotent(p.drop_last());
    }
}

pub proof fn lemma_segment_start_bounds(t: Seq<char>)
    ensures
        0 <= segment_start(t) <= t.len(),
        segment_start(t) > 0 ==> t[segment_start(t) - 1] == '/',
        forall|i: int| segment_start(t) <= i < t.len() ==> t[i] != '/',
    decreases t.len(),
{
    if t.len() > 0 && t.last() != '/' {
        lemma_segment_start_bounds(t.drop_last());
        let s = segment_start(t.drop_last());
        assert forall|i: int| segment_start(t) <= i < t.len() implies t[i] != '/' by {
            if i < t.len() - 1 {
                assert(t[i] == t.drop_last()[i]);
            }
        }
        if s > 0 {
            assert(t[s - 1] == t.drop_last()[s - 1]);
        }
    }
}

/// The segment start of a text is fixed by its last separator.
pub proof fn lemma_segment_start_after_separator(a: Seq<char>, b: Seq<char>)
    requires
        a.len() > 0,
        a.last() == '/',
        forall|i: int| 0 <= i < b.len() ==> b[i] != '/',
    ensures
        segment_start(a + b) == a.len(),
    decreases b.len(),
{
    if b.len() == 0 {
        assert(a + b =~= a);
    } else {
        assert((a + b).drop_last() =~= a + b.drop_last());
        lemma_segment_start_after_separator(a, b.drop_last());
    }
}

/// A text without separators starts its only segment at 0.
pub proof fn lemma_segment_start_no_separator(b: Seq<char>)
    requires
        forall|i: int| 0 <= i < b.len() ==> b[i] != '/',
    ensures
        segment_start(b) == 0,
    decreases b.len(),
{
    if b.len() > 0 {
        lemma_segment_start_no_separator(b.drop_last());
    }
}

/// Returns `m` such that the trimmed text of the first `k` characters of `p`
/// is the first `m` characters of `p`.
fn trimmed_prefix_len(p: &str, k: usize) -> (m: usize)
    requires
        k <= p@.len(),
    ensures
        m <= k,
        trim_trailing(p@.subrange(0, k as int)) == p@.subrange(0, m as int),
{
    let mut n = k;
    while n > 0
        invariant
            n <= k <= p@.len(),
            trim_trailing(p@.subrange(0, k as int)) == trim_trailing(p@.subrange(0, n as int)),
        decreases n,
    {
        let ghost cur = p@.subrange(0, n as int);
        proof {
            assert(cur.drop_last() =~= p@.subrange(0, n - 1));
        }
        let last = p.get_char(n - 1);
        if n > 1 && last == '/' {
            n = n - 1;
        } else if n >= 2 && last == '.' && p.get_char(n - 2) == '/' {
            n = n - 1;
        } else {
            return n;
        }
    }
    n
}

/// The segment start of the first `n` characters of `p`.
fn segment_start_of_prefix(p: &str, n: usize) -> (s: usize)
    requires
        n <= p@.len(),
    ensures
        s as int == segment_start(p@.subrange(0, n as int)),
        s <= n,
{
    let mut i = n;
    while i > 0
        invariant
            i <= n <= p@.len(),
            segment_start(p@.subrange(0, n as int)) == segment_start(p@.subrange(0, i as int)),
        decreases i,
    {
        let ghost cur = p@.subrange(0, i as int);
        proof {
            assert(cur.drop_last() =~= p@.subrange(0, i - 1));
        }
        if p.get_char(i - 1) == '/' {
            return i;
        }
        i = i - 1;
    }
    i
}

/// Where the last component of `p` lies: `(start, end)` with
/// `last_segment(p) == p[start..end]`, and the trimmed text is `p[..end]`.
fn last_segment_range(p: &str) -> (r: (usize, usize))
    ensures
        r.0 <= r.1 <= p@.len(),
        trim_trailing(p@) == p@.subrange(0, r.1 as int),
        segment_start(trim_trailing(p@)) == r.0,
        last_segment(p@) == p@.subrange(r.0 as int, r.1 as int),
{
    let len = p.unicode_len();
    proof {
        assert(p@.subrange(0, len as int) =~= p@);
    }
    let end = trimmed_prefix_len(p, len);
    let start = segment_start_of_prefix(p, end);
    proof {
        let t = p@.subrange(0, end as int);
        assert(t.subrange(start as int, end as int) =~= p@.subrange(start as int, end as int));
    }
    (start, end)
}

/// Whether the component `p[start..end]` is a file name (not empty, `.` or `..`).
fn is_file_name(p: &str, start: usize, end: usize) -> (b: bool)
    requires
        start <= end <= p@.len(),
    ensures
        b == {
            let seg = p@.subrange(start as int, end as int);
            !(seg.len() == 0 || seg == seq!['.'] || seg == seq!['.', '.'])
        },
{
    let ghost seg = p@.subrange(start as int, end as int);
    if start == end {
        return false;
    }
    let first = p.get_char(start);
    if end - start == 1 {
        assert(seg[0] == first);
        if first == '.' {
            assert(seg =~= seq!['.']);
            return false;
        }
        assert(seg != seq!['.']);
        assert(seg.len() != 2);
        return true;
    }
    if end - start == 2 {
        let second = p.get_char(start + 1);
        assert(seg[0] == first);
        assert(seg[1] == second);
        if first == '.' && second == '.' {
            assert(seg =~= seq!['.', '.']);
            return false;
        }
        assert(seg != seq!['.', '.']);
        assert(seg.len() != 1);
        return true;
    }
    assert(seg.len() != 1 && seg.len() != 2);
    assert(seg != seq!['.']);
    assert(seg != seq!['.', '.']);
    true
}

/// The file name of `p`, as `Path::file_name` gives it.
pub fn path_file_name(p: &str) -> (r: Option<&str>)
    ensures
        match r {
            Some(name) => file_name(p@) == Some(name@),
            None => file_name(p@) is None,
        },
{
    let (start, end) = last_segment_range(p);
    if is_file_name(p, start, end) {
        Some(p.substring_char(start, end))
    } else {
        None
    }
}

/// Joins `name` onto `base` as `PathBuf::push` does for a relative name.
fn push_component_exec(base: &str, name: &str) -> (r: String)
    ensures
        r@ == push_component(base@, name@),
{
    let len = base.unicode_len();
    let owned = String::from_str(base);
    if len > 0 && base.get_char(len - 1) != '/' {
        proof { reveal_strlit("/"); }
        owned.concat("/").concat(name)
    } else {
        owned.concat(name)
    }
}

/// `Path::with_file_name` with a name that holds no separator.
pub fn path_with_file_name(p: &str, name: &str) -> (r: String)
    ensures
        r@ == with_file_name(p@, name@),
{
    let (start, end) = last_segment_range(p);
    if is_file_name(p, start, end) {
        let m = trimmed_prefix_len(p, start);
        proof {
            let t = trim_trailing(p@);
            assert(t.subrange(0, start as int) =~= p@.subrange(0, start as int));
        }
        let parent = p.substring_char(0, m);
        push_component_exec(parent, name)
    } else {
        push_component_exec(p, name)
    }
}

/// The index of the last `.` of `name[..n]`, if any.
fn last_dot_exec(name: &str) -> (d: Option<usize>)
    ensures
        match d {
            Some(i) => last_dot(name@) == i && i < name@.len(),
            None => last_dot(name@) == -1,
        },
{
    let len = name.unicode_len();
    let mut i = len;
    proof {
        assert(name@.subrange(0, len as int) =~= name@);
    }
    while i > 0
        invariant
            i <= len == name@.len(),
            last_dot(name@) == last_dot(name@.subrange(0, i as int)),
        decreases i,
    {
        let ghost cur = name@.subrange(0, i as int);
        proof {
            assert(cur.drop_last() =~= name@.subrange(0, i - 1));
        }
        if name.get_char(i - 1) == '.' {
            return Some(i - 1);
        }
        i = i - 1;
    }
    None
}

/// The stem of a file name.
pub fn file_name_stem(name: &str) -> (r: &str)
    ensures
        r@ == name_stem(name@),
{
    match last_dot_exec(name) {
        Some(d) => {
            if d == 0 {
                name
            } else {
                name.substring_char(0, d)
            }
        },
        None => name,
    }
}

/// The extension of a file name.
pub fn file_name_extension(name: &str) -> (r: Option<&str>)
    ensures
        match r {
            Some(e) => name_extension(name@) == Some(e@),
            None => name_extension(name@) is None,
        },
{
    match last_dot_exec(name) {
        Some(d) => {
            if d == 0 {
                None
            } else {
                let len = name.unicode_len();
                Some(name.substring_char(d + 1, len))
            }
        },
        None => None,
    }
}

/// `Path::file_stem`.
pub fn path_file_stem(p: &str) -> (r: Option<&str>)
    ensures
        match r {
            Some(s) => file_stem(p@) == Some(s@),
            None => file_stem(p@) is None,
        },
{
    match path_file_name(p) {
        Some(name) => Some(file_name_stem(name)),
        None => None,
    }
}

/// `Path::extension`.
pub fn path_extension(p: &str) -> (r: Option<&str>)
    ensures
        match r {
            Some(e) => extension(p@) == Some(e@),
            None => extension(p@) is None,
        },
{
    match path_file_name(p) {
        Some(name) => file_name_extension(name),
        None => None,
    }
}

/// The path that `path_clean::clean` makes of `p`: repeated separators,
/// `.` components and `..` components after a plain one removed lexically,
/// `.` for an empty result.
pub uninterp spec fn cleaned_path(p: Seq<char>) -> Seq<char>;

/// Calls `path_clean::clean`; the contract names the result, which depends
/// on the text of the path alone.
#[verifier::external_body]
pub(crate) fn clean_path(p: &str) -> (r: String)
    ensures
        r@ == cleaned_path(p@),
{
    path_clean::clean(p).to_string_lossy().into_owned()
}

/// `s` with every `\\` turned into `/`.
pub open spec fn with_forward_slashes(s: Seq<char>) -> Seq<char> {
    s.map_values(|c: char| if c == '\\' { '/' } else { c })
}

/// Turns every `\\` of `s` into `/`.
pub fn forward_slashes(s: &str) -> (r: String)
    ensures
        r@ == with_forward_slashes(s@),
{
    let len = s.unicode_len();
    let mut r = String::new();
    let mut start: usize = 0;
    let mut i: usize = 0;
    while i < len
        invariant
            len == s@.len(),
            start <= i <= len,
            r@ == with_forward_slashes(s@.subrange(0, start as int)),
            forall|k: int| start <= k < i ==> s@[k] != '\\',
        decreases len - i,
    {
        let c = s.get_char(i);
        if c == '\\' {
            let piece = s.substring_char(start, i);
            let ghost before = r@;
            r.append(piece);
            r.append("/");
            proof {
                reveal_strlit("/");
                assert(piece@ =~= with_forward_slashes(s@.subrange(start as int, i as int)));
                assert(s@.subrange(0, i + 1) =~= s@.subrange(0, start as int) + s@.subrange(
                    start as int,
                    i as int,
                ) + seq![c]);
                assert(with_forward_slashes(s@.subrange(0, i + 1)) =~= before + piece@ + seq!['/']);
            }
            start = i + 1;
        }
        i = i + 1;
    }
    let rest = s.substring_char(start, len);
    let ghost before = r@;
    r.append(rest);
    proof {
        assert(rest@ =~= with_forward_slashes(s@.subrange(start as int, len as int)));
        assert(s@ =~= s@.subrange(0, start as int) + s@.subrange(start as int, len as int));
        assert(with_forward_slashes(s@) =~= before + rest@);
    }
    r
}

/// The pieces of `p` between separators, in order (empty pieces included).
pub open spec fn split_segments(p: Seq<char>) -> Seq<Seq<char>>
    decreases p.len(),
{
    if p.len() == 0 {
        seq![Seq::<char>::empty()]
    } else {
        let s = split_segments(p.drop_last());
        if p.last() == '/' {
            s.push(Seq::<char>::empty())
        } else {
            s.update(s.len() - 1, s.last().push(p.last()))
        }
    }
}

/// A piece that `Path::components` keeps after the first: neither empty nor
/// `.`.
pub open spec fn is_normal_segment(s: Seq<char>) -> bool {
    s.len() > 0 && s != seq!['.']
}

/// `p` starts with a `.` component: it is `.` or starts with `./`.
pub open spec fn starts_with_cur_dir(p: Seq<char>) -> bool {
    p == seq!['.'] || (p.len() >= 2 && p[0] == '.' && p[1] == '/')
}

/// The components after the first that `Path::components` keeps: the pieces
/// between separators that are neither empty nor `.`.
pub open spec fn normal_components(p: Seq<char>) -> Seq<Seq<char>> {
    split_segments(p).filter(|s: Seq<char>| is_normal_segment(s))
}

/// What `Path::components` makes of `p`: whether it starts at the root,
/// whether it starts with a `.` component, and the other components.
pub open spec fn path_key(p: Seq<char>) -> (bool, bool, Seq<Seq<char>>) {
    let rooted = p.len() > 0 && p[0] == '/';
    (rooted, !rooted && starts_with_cur_dir(p), normal_components(p))
}

/// The texts of a list of strings.
pub open spec fn string_texts(v: Seq<String>) -> Seq<Seq<char>> {
    v.map_values(|s: String| s@)
}

/// A split always has a first piece.
proof fn lemma_split_nonempty(p: Seq<char>)
    ensures
        split_segments(p).len() >= 1,
    decreases p.len(),
{
    if p.len() > 0 {
        lemma_split_nonempty(p.drop_last());
    }
}

/// The pieces of `p` between separators.
fn segments(p: &str) -> (r: Vec<String>)
    ensures
        string_texts(r@) == split_segments(p@),
{
    let len = p.unicode_len();
    let mut done: Vec<String> = Vec::new();
    let mut start: usize = 0;
    let mut i: usize = 0;
    proof {
        assert(p@.subrange(0, 0) =~= Seq::<char>::empty());
        assert(string_texts(done@).push(p@.subrange(0, 0)) =~= seq![Seq::<char>::empty()]);
    }
    while i < len
        invariant
            len == p@.len(),
            start <= i <= len,
            string_texts(done@).push(p@.subrange(start as int, i as int)) == split_segments(
                p@.subrange(0, i as int),
            ),
        decreases len - i,
    {
        let c = p.get_char(i);
        let ghost pre = p@.subrange(0, i + 1);
        let ghost before = string_texts(done@);
        proof {
            assert(pre.drop_last() =~= p@.subrange(0, i as int));
            assert(pre.last() == c);
            lemma_split_nonempty(p@.subrange(0, i as int));
        }
        if c == '/' {
            let piece = p.substring_char(start, i);
            done.push(String::from_str(piece));
            proof {
                assert(string_texts(done@) =~= before.push(piece@));
                assert(p@.subrange(i + 1, i + 1) =~= Seq::<char>::empty());
            }
            start = i + 1;
        } else {
            proof {
                let s = split_segments(p@.subrange(0, i as int));
                assert(s =~= before.push(p@.subrange(start as int, i as int)));
                assert(p@.subrange(start as int, i + 1) =~= p@.subrange(start as int, i as int).push(c));
                assert(s.update(s.len() - 1, s.last().push(c)) =~= before.push(
                    p@.subrange(start as int, i + 1),
                ));
            }
        }
        i = i + 1;
    }
    let last = p.substring_char(start, len);
    let ghost before = string_texts(done@);
    done.push(String::from_str(last));
    proof {
        assert(p@.subrange(0, len as int) =~= p@);
        assert(string_texts(done@) =~= before.push(last@));
    }
    done
}

/// The pieces of a split that `Path::components` keeps after the first.
fn normal_segments(segs: &Vec<String>) -> (r: Vec<String>)
    ensures
        string_texts(r@) == string_texts(segs@).filter(|s: Seq<char>| is_normal_segment(s)),
{
    let ghost pred = |s: Seq<char>| is_normal_segment(s);
    let ghost all = string_texts(segs@);
    let mut r: Vec<String> = Vec::new();
    let mut i: usize = 0;
    while i < segs.len()
        invariant
            i <= segs@.len(),
            all == string_texts(segs@),
            pred == (|s: Seq<char>| is_normal_segment(s)),
            string_texts(r@) == all.subrange(0, i as int).filter(pred),
        decreases segs@.len() - i,
    {
        let seg = &segs[i];
        let n = seg.as_str().unicode_len();
        let is_dot = n == 1 && seg.as_str().get_char(0) == '.';
        let ghost before = string_texts(r@);
        proof {
            assert(all.subrange(0, i + 1) =~= all.subrange(0, i as int).push(seg@));
            all.subrange(0, i as int).lemma_filter_push(seg@, pred);
            if n == 1 {
                if is_dot {
                    assert(seg@ =~= seq!['.']);
                } else {
                    assert(seg@[0] != '.');
                }
            }
        }
        if n > 0 && !is_dot {
            r.push(seg.clone());
            proof {
                assert(string_texts(r@) =~= before.push(seg@));
            }
        }
        i = i + 1;
    }
    assert(all.subrange(0, segs@.len() as int) =~= all);
    r
}

/// Whether two lists of strings hold the same texts.
fn same_texts(a: &Vec<String>, b: &Vec<String>) -> (r: bool)
    ensures
        r == (string_texts(a@) == string_texts(b@)),
{
    if a.len() != b.len() {
        proof {
            assert(string_texts(a@).len() != string_texts(b@).len());
        }
        return false;
    }
    let mut i: usize = 0;
    while i < a.len()
        invariant
            i <= a@.len(),
            a@.len() == b@.len(),
            forall|k: int| 0 <= k < i ==> a@[k]@ == b@[k]@,
        decreases a@.len() - i,
    {
        if !a[i].eq(&b[i]) {
            proof {
                assert(string_texts(a@)[i as int] != string_texts(b@)[i as int]);
            }
            return false;
        }
        i = i + 1;
    }
    proof {
        assert(string_texts(a@) =~= string_texts(b@));
    }
    true
}

/// Whether `p` starts at the root and whether it starts with a `.`
/// component.
fn path_start(p: &str) -> (r: (bool, bool))
    ensures
        r.0 == path_key(p@).0,
        r.1 == path_key(p@).1,
{
    let len = p.unicode_len();
    let rooted = len > 0 && p.get_char(0) == '/';
    let dot = len >= 1 && p.get_char(0) == '.' && (len == 1 || p.get_char(1) == '/');
    proof {
        if len == 1 && dot {
            assert(p@ =~= seq!['.']);
        }
    }
    (rooted, !rooted && dot)
}

/// Whether `a` and `b` name the same path as `Path`'s `==` sees it: the same
/// components.
pub fn same_path(a: &str, b: &str) -> (r: bool)
    ensures
        r == (path_key(a@) == path_key(b@)),
{
    let (ra, ca) = path_start(a);
    let (rb, cb) = path_start(b);
    let na = normal_segments(&segments(a));
    let nb = normal_segments(&segments(b));
    ra == rb && ca == cb && same_texts(&na, &nb)
}

/// Appending a separator adds an empty piece.
proof fn lemma_split_push_sep(a: Seq<char>)
    ensures
        split_segments(a.push('/')) == split_segments(a).push(Seq::<char>::empty()),
{
    assert(a.push('/').drop_last() =~= a);
}

/// Appending text without separators extends the last piece.
proof fn lemma_split_concat_plain(a: Seq<char>, b: Seq<char>)
    requires
        lacks_sep(b),
    ensures
        split_segments(a + b) == split_segments(a).update(
            split_segments(a).len() - 1,
            split_segments(a).last() + b,
        ),
    decreases b.len(),
{
    lemma_split_nonempty(a);
    let s = split_segments(a);
    if b.len() == 0 {
        assert(a + b =~= a);
        assert(s.last() + b =~= s.last());
        assert(s.update(s.len() - 1, s.last()) =~= s);
    } else {
        let b0 = b.drop_last();
        let c = b.last();
        assert(lacks_sep(b0));
        lemma_split_concat_plain(a, b0);
        assert((a + b).drop_last() =~= a + b0);
        assert((a + b).last() == c);
        assert(c != '/');
        let s0 = split_segments(a + b0);
        assert(s0.last() == s.last() + b0);
        assert((s.last() + b0).push(c) =~= s.last() + b);
        assert(s0.update(s0.len() - 1, s0.last().push(c)) =~= s.update(s.len() - 1, s.last() + b));
    }
}

/// A text without separators.
pub open spec fn lacks_sep(b: Seq<char>) -> bool {
    forall|i: int| 0 <= i < b.len() ==> b[i] != '/'
}

/// Replacing an empty last piece by `x` is dropping it and pushing `x`.
proof fn lemma_normals_push_over_empty(s: Seq<Seq<char>>, x: Seq<char>)
    requires
        s.len() >= 1,
        s.last() == Seq::<char>::empty(),
    ensures
        s.update(s.len() - 1, x).filter(|t: Seq<char>| is_normal_segment(t)) == s.drop_last().filter(
            |t: Seq<char>| is_normal_segment(t),
        ).push(x).filter(|t: Seq<char>| is_normal_segment(t)),
        s.filter(|t: Seq<char>| is_normal_segment(t)) == s.drop_last().filter(
            |t: Seq<char>| is_normal_segment(t),
        ),
{
    let pred = |t: Seq<char>| is_normal_segment(t);
    let d = s.drop_last();
    assert(s.update(s.len() - 1, x) =~= d.push(x));
    assert(s =~= d.push(Seq::<char>::empty()));
    d.lemma_filter_push(x, pred);
    d.lemma_filter_push(Seq::<char>::empty(), pred);
    let f = d.filter(pred);
    f.lemma_filter_push(x, pred);
    assert(f.filter(pred) =~= f) by {
        lemma_filter_idempotent(d, pred);
    }
}

/// Filtering a filtered sequence again changes nothing.
proof fn lemma_filter_idempotent(d: Seq<Seq<char>>, pred: spec_fn(Seq<char>) -> bool)
    ensures
        d.filter(pred).filter(pred) == d.filter(pred),
    decreases d.len(),
{
    if d.len() > 0 {
        let d0 = d.drop_last();
        lemma_filter_idempotent(d0, pred);
        assert(d =~= d0.push(d.last()));
        d0.lemma_filter_push(d.last(), pred);
        if pred(d.last()) {
            d0.filter(pred).lemma_filter_push(d.last(), pred);
        }
    } else {
        assert(d.filter(pred) =~= d) by {
            reveal(Seq::filter);
        }
    }
}

/// A separator at the end adds no component.
proof fn lemma_normals_push_sep(a: Seq<char>)
    ensures
        normal_components(a.push('/')) == normal_components(a),
{
    lemma_split_push_sep(a);
    split_segments(a).lemma_filter_push(Seq::<char>::empty(), |t: Seq<char>| is_normal_segment(t));
}

/// A `.` after a separator at the end adds no component.
proof fn lemma_normals_push_dot(a: Seq<char>)
    requires
        a.len() > 0,
        a.last() == '/',
    ensures
        normal_components(a.push('.')) == normal_components(a),
{
    let pred = |t: Seq<char>| is_normal_segment(t);
    let a0 = a.drop_last();
    assert(a0.push('/') =~= a);
    lemma_split_push_sep(a0);
    let s0 = split_segments(a0);
    assert(a.push('.').drop_last() =~= a);
    let s = split_segments(a);
    assert(s == s0.push(Seq::<char>::empty()));
    assert(split_segments(a.push('.')) == s.update(s.len() - 1, s.last().push('.')));
    assert(s.update(s.len() - 1, s.last().push('.')) =~= s0.push(seq!['.']));
    assert(Seq::<char>::empty().push('.') =~= seq!['.']);
    s0.lemma_filter_push(seq!['.'], pred);
    s0.lemma_filter_push(Seq::<char>::empty(), pred);
}

/// Trimming the end of a path keeps its components.
proof fn lemma_normals_trim(p: Seq<char>)
    ensures
        normal_components(trim_trailing(p)) == normal_components(p),
    decreases p.len(),
{
    if p.len() > 1 && p.last() == '/' {
        lemma_normals_trim(p.drop_last());
        assert(p.drop_last().push('/') =~= p);
        lemma_normals_push_sep(p.drop_last());
    } else if p.len() >= 2 && p.last() == '.' && p[p.len() - 2] == '/' {
        lemma_normals_trim(p.drop_last());
        assert(p.drop_last().push('.') =~= p);
        lemma_normals_push_dot(p.drop_last());
    }
}

/// Trimming a non-empty path leaves it non-empty.
proof fn lemma_trim_nonempty(p: Seq<char>)
    requires
        p.len() > 0,
    ensures
        trim_trailing(p).len() > 0,
    decreases p.len(),
{
    if p.len() > 1 && p.last() == '/' {
        lemma_trim_nonempty(p.drop_last());
    } else if p.len() >= 2 && p.last() == '.' && p[p.len() - 2] == '/' {
        lemma_trim_nonempty(p.drop_last());
    }
}

/// Where trimming cut a path short (and did not stop at a lone root), the
/// first character cut is a separator.
proof fn lemma_trim_cut_at_sep(p: Seq<char>)
    requires
        trim_trailing(p).len() < p.len(),
        trim_trailing(p) != seq!['/'],
    ensures
        p[trim_trailing(p).len() as int] == '/',
    decreases p.len(),
{
    let q = p.drop_last();
    lemma_trim_is_prefix(q);
    if p.len() > 1 && p.last() == '/' {
        if trim_trailing(q).len() < q.len() {
            lemma_trim_cut_at_sep(q);
        }
    } else {
        // the last character is a `.` after a separator
        if trim_trailing(q).len() < q.len() {
            lemma_trim_cut_at_sep(q);
        } else {
            assert(trim_trailing(q) == q);
            // a text that ends with a separator is its own trim only when it
            // is the lone root
            assert(q.last() == '/');
            if q.len() > 1 {
                lemma_trim_is_prefix(q.drop_last());
            }
            assert(q.len() == 1);
            assert(q =~= seq!['/']);
        }
    }
}

/// Putting a plain name after a path adds it as its last component.
proof fn lemma_normals_push_component(a: Seq<char>, b: Seq<char>)
    requires
        lacks_sep(b),
        is_normal_segment(b),
    ensures
        normal_components(push_component(a, b)) == normal_components(a).push(b),
{
    let pred = |t: Seq<char>| is_normal_segment(t);
    if a.len() > 0 && a.last() != '/' {
        let x = a.push('/');
        assert(push_component(a, b) =~= x + b);
        lemma_split_concat_plain(x, b);
        lemma_split_push_sep(a);
        let s = split_segments(a);
        let sx = split_segments(x);
        assert(sx.last() + b =~= b);
        assert(sx.update(sx.len() - 1, sx.last() + b) =~= s.push(b));
        s.lemma_filter_push(b, pred);
    } else {
        assert(push_component(a, b) =~= a + b);
        lemma_split_concat_plain(a, b);
        let s = split_segments(a);
        lemma_split_nonempty(a);
        if a.len() == 0 {
            assert(s =~= seq![Seq::<char>::empty()]);
        } else {
            assert(a.drop_last().push('/') =~= a);
            lemma_split_push_sep(a.drop_last());
        }
        assert(s.last() + b =~= b);
        lemma_normals_push_over_empty(s, b);
        s.drop_last().lemma_filter_push(b, pred);
        lemma_filter_idempotent(s.drop_last().push(b), pred);
    }
}

/// Replacing the file name of a path by that same name keeps the path, as
/// `Path`'s `==` sees it: the same root, the same leading `.`, the same
/// components.
pub proof fn lemma_same_file_name_same_path(p: Seq<char>)
    requires
        file_name(p) is Some,
    ensures
        path_key(with_file_name(p, file_name(p).unwrap())) == path_key(p),
{
    let t = trim_trailing(p);
    let ss = segment_start(t);
    lemma_segment_start_bounds(t);
    lemma_trim_is_prefix(p);
    let pre = t.subrange(0, ss);
    let name = t.subrange(ss, t.len() as int);
    let parent = trim_trailing(pre);
    lemma_trim_is_prefix(pre);
    assert(file_name(p) == Some(name));
    assert(lacks_sep(name)) by {
        assert forall|i: int| 0 <= i < name.len() implies name[i] != '/' by {
            assert(name[i] == t[ss + i]);
        }
    }
    assert(is_normal_segment(name));
    let q = with_file_name(p, name);
    assert(q == push_component(parent, name));
    // the components
    lemma_normals_trim(p);
    assert(t =~= pre + name);
    if ss > 0 {
        assert(pre.last() == '/');
    }
    assert(push_component(pre, name) =~= t);
    lemma_normals_push_component(pre, name);
    lemma_normals_trim(pre);
    lemma_normals_push_component(parent, name);
    // the root and the leading `.`
    assert(p.len() > 0);
    if parent.len() == 0 {
        if pre.len() > 0 {
            lemma_trim_nonempty(pre);
        }
        assert(pre.len() == 0);
        assert(q =~= name);
        assert(t =~= name);
        assert(q[0] == p[0]);
        if name.len() >= 2 {
            assert(q[1] == p[1]);
        } else {
            assert(name != seq!['.']);
            assert(name =~= seq![name[0]]);
        }
    } else {
        assert(q.subrange(0, parent.len() as int) =~= parent);
        assert(q[0] == parent[0]);
        assert(parent[0] == p[0]);
        if parent.len() >= 2 {
            assert(q[1] == parent[1]);
            assert(parent[1] == p[1]);
        } else if p[0] != '/' {
            assert(parent[0] != '/');
            assert(q[1] == '/');
            if p[0] == '.' {
                // `pre` ends with a separator, so it is longer than `.`
                assert(pre.len() >= 2);
                assert(parent == seq![p[0]]);
                lemma_trim_cut_at_sep(pre);
                assert(pre[1] == '/');
                assert(p[1] == '/');
            }
        }
    }
}

} // verus!
