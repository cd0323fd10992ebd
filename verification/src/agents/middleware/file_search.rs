//! Filesystem file search middleware: the path, glob and grep rules behind
//! the search tools, constrained to a root directory.
//!
//! Paths are plain strings with `/` as separator. Walking directories and
//! reading files is left to the caller; this module decides which paths are
//! allowed, which names match a pattern and which lines of a file are hits.

use vstd::prelude::*;
use vstd::string::*;
use crate::error::RustChainError;
use crate::regexes::{outcome_hit, regex_is_match, regex_matches, regex_outcome};
use crate::text::{chars_of, chars_eq, push_char, push_chars, push_string, string_of_chars};

verus! {

/// Output mode for grep searches.
#[derive(Debug, Clone, Copy, PartialEq, Eq, Structural)]
pub enum GrepOutputMode {
    /// Return matching lines with content.
    Content,
    /// Return only file paths that contain matches.
    FilesWithMatches,
}

/// Configuration for the filesystem file search middleware.
pub struct FilesystemFileSearchMiddleware {
    /// Root path that all searches are constrained to.
    pub root_path: String,
    /// Whether to use ripgrep (rg) for grep searches (falls back to internal grep).
    pub use_ripgrep: bool,
    /// Maximum file size in bytes to include in search results.
    pub max_file_size: usize,
}

/// A match found by grep search.
#[derive(Debug, Clone)]
pub struct GrepMatch {
    /// File path relative to root.
    pub file_path: String,
    /// Line number (1-indexed).
    pub line_number: usize,
    /// Content of the matching line.
    pub line_content: String,
}

/// The default size limit for searched files: 10 MiB.
pub const DEFAULT_MAX_FILE_SIZE: usize = 10485760;

// ---------------------------------------------------------------------------
// Path model
// ---------------------------------------------------------------------------
//
// A normalized path is a stack of components. Names are never empty, so the
// root directory is represented by the empty sequence, which can only stand
// at the bottom of the stack.

/// The stack after closing one segment: empty and `.` segments vanish, `..`
/// removes the last component (the root too), any other name is pushed.
pub open spec fn norm_step(stack: Seq<Seq<char>>, seg: Seq<char>) -> Seq<Seq<char>> {
    if seg.len() == 0 || seg == seq!['.'] {
        stack
    } else if seg == seq!['.', '.'] {
        if stack.len() > 0 {
            stack.drop_last()
        } else {
            stack
        }
    } else {
        stack.push(seg)
    }
}

/// The components of an absolute path start at the root.
pub open spec fn norm_start(s: Seq<char>) -> Seq<Seq<char>> {
    if s.len() > 0 && s[0] == '/' {
        seq![Seq::<char>::empty()]
    } else {
        Seq::<Seq<char>>::empty()
    }
}

/// The stack and the open segment after reading the first `i` characters.
pub open spec fn norm_scan(s: Seq<char>, i: nat) -> (Seq<Seq<char>>, Seq<char>)
    decreases i,
{
    if i == 0 {
        (norm_start(s), Seq::<char>::empty())
    } else {
        let (st, cur) = norm_scan(s, (i - 1) as nat);
        if s[i - 1] == '/' {
            (norm_step(st, cur), Seq::<char>::empty())
        } else {
            (st, cur.push(s[i - 1]))
        }
    }
}

/// The components of `s` once `.` and `..` are resolved without touching the
/// filesystem.
pub open spec fn norm_stack(s: Seq<char>) -> Seq<Seq<char>> {
    let (st, cur) = norm_scan(s, s.len());
    norm_step(st, cur)
}

/// A stack of components written back as a path, as `PathBuf::push` joins them.
pub open spec fn render(stack: Seq<Seq<char>>) -> Seq<char>
    decreases stack.len(),
{
    if stack.len() == 0 {
        Seq::<char>::empty()
    } else {
        let prev = render(stack.drop_last());
        let t = stack.last();
        if t.len() == 0 {
            seq!['/']
        } else if prev.len() == 0 {
            t
        } else if prev.last() == '/' {
            prev + t
        } else {
            prev + seq!['/'] + t
        }
    }
}

/// `path` resolved against `root`: an absolute path stands for itself, a
/// relative one is joined under the root.
pub open spec fn resolve(root: Seq<char>, path: Seq<char>) -> Seq<char> {
    if path.len() > 0 && path[0] == '/' {
        path
    } else if root.len() == 0 {
        path
    } else if root.last() == '/' {
        root + path
    } else {
        root + seq!['/'] + path
    }
}

/// Whether the normalized `path` lies under the normalized `root`,
/// comparing whole components.
pub open spec fn within_root(root: Seq<char>, path: Seq<char>) -> bool {
    let r = norm_stack(root);
    let p = norm_stack(resolve(root, path));
    r.len() <= p.len() && p.subrange(0, r.len() as int) == r
}

/// The message of a refused path.
pub open spec fn traversal_message(path: Seq<char>, root: Seq<char>) -> Seq<char> {
    "Path traversal detected: '"@ + path + "' is outside root '"@ + root + "'"@
}

/// Whether two components are the same.
fn seg_is(a: &Vec<char>, b: &Vec<char>) -> (r: bool)
    ensures
        r == (a@ == b@),
{
    chars_eq(a, b)
}

/// Closes the open segment `cur` onto `stack`.
fn close_segment(stack: &mut Vec<Vec<char>>, cur: Vec<char>)
    ensures
        final(stack)@.map_values(|v: Vec<char>| v@) == norm_step(
            old(stack)@.map_values(|v: Vec<char>| v@),
            cur@,
        ),
{
    let ghost before = old(stack)@.map_values(|v: Vec<char>| v@);
    if cur.len() == 0 || (cur.len() == 1 && cur[0] == '.') {
        proof {
            if cur.len() == 1 {
                assert(cur@ =~= seq!['.']);
            }
        }
    } else if cur.len() == 2 && cur[0] == '.' && cur[1] == '.' {
        assert(cur@ =~= seq!['.', '.']);
        assert(cur@ != seq!['.']);
        if stack.len() > 0 {
            stack.pop();
            assert(stack@.map_values(|v: Vec<char>| v@) =~= before.drop_last());
        }
    } else {
        proof {
            if cur@ == seq!['.'] {
                assert(cur@.len() == 1);
            }
            if cur@ == seq!['.', '.'] {
                assert(cur@.len() == 2 && cur@[0] == '.' && cur@[1] == '.');
            }
        }
        stack.push(cur);
        assert(stack@.map_values(|v: Vec<char>| v@) =~= before.push(cur@));
    }
}

/// The normalized components of a path, each as its characters.
fn path_components(s: &Vec<char>) -> (r: Vec<Vec<char>>)
    ensures
        r@.map_values(|v: Vec<char>| v@) == norm_stack(s@),
{
    let mut stack: Vec<Vec<char>> = Vec::new();
    if s.len() > 0 && s[0] == '/' {
        stack.push(Vec::new());
    }
    assert(stack@.map_values(|v: Vec<char>| v@) =~= norm_start(s@));
    let mut cur: Vec<char> = Vec::new();
    let mut i: usize = 0;
    while i < s.len()
        invariant
            i <= s.len(),
            (stack@.map_values(|v: Vec<char>| v@), cur@) == norm_scan(s@, i as nat),
        decreases s.len() - i,
    {
        if s[i] == '/' {
            let done = cur;
            cur = Vec::new();
            close_segment(&mut stack, done);
        } else {
            cur.push(s[i]);
        }
        i = i + 1;
    }
    close_segment(&mut stack, cur);
    stack
}

/// Writes a component stack back as a path.
fn render_components(stack: &Vec<Vec<char>>) -> (r: String)
    ensures
        r@ == render(stack@.map_values(|v: Vec<char>| v@)),
{
    let ghost st = stack@.map_values(|v: Vec<char>| v@);
    let mut out = String::new();
    let mut i: usize = 0;
    while i < stack.len()
        invariant
            i <= stack.len(),
            st == stack@.map_values(|v: Vec<char>| v@),
            out@ == render(st.subrange(0, i as int)),
        decreases stack.len() - i,
    {
        let t = &stack[i];
        assert(st.subrange(0, i + 1).drop_last() =~= st.subrange(0, i as int));
        assert(st.subrange(0, i + 1).last() == t@);
        if t.len() == 0 {
            out = String::new();
            push_char(&mut out, '/');
            assert(out@ =~= seq!['/']);
        } else if out.as_str().unicode_len() == 0 {
            let ghost prev = out@;
            push_chars(&mut out, t);
            assert(out@ =~= t@) by {
                assert(prev.len() == 0);
                assert(prev =~= Seq::<char>::empty());
            }
        } else {
            let n = out.as_str().unicode_len();
            let last = out.as_str().get_char(n - 1);
            if last != '/' {
                push_char(&mut out, '/');
            }
            push_chars(&mut out, t);
        }
        i = i + 1;
    }
    assert(st.subrange(0, stack.len() as int) =~= st);
    out
}

/// Normalize a path by resolving `.` and `..` components without filesystem access.
pub fn normalize_path(path: &str) -> (r: String)
    ensures
        r@ == render(norm_stack(path@)),
{
    let cs = chars_of(path);
    let comps = path_components(&cs);
    render_components(&comps)
}

/// Whether `p` starts with all of `r`, component by component.
fn components_prefix(r: &Vec<Vec<char>>, p: &Vec<Vec<char>>) -> (b: bool)
    ensures
        b == (r@.len() <= p@.len() && p@.map_values(|v: Vec<char>| v@).subrange(0, r@.len() as int)
            == r@.map_values(|v: Vec<char>| v@)),
{
    let ghost rv = r@.map_values(|v: Vec<char>| v@);
    let ghost pv = p@.map_values(|v: Vec<char>| v@);
    if r.len() > p.len() {
        return false;
    }
    let mut i: usize = 0;
    while i < r.len()
        invariant
            r@.len() <= p@.len(),
            i <= r@.len(),
            rv == r@.map_values(|v: Vec<char>| v@),
            pv == p@.map_values(|v: Vec<char>| v@),
            forall|k: int| 0 <= k < i ==> rv[k] == pv[k],
        decreases r.len() - i,
    {
        if !seg_is(&r[i], &p[i]) {
            assert(pv.subrange(0, r@.len() as int)[i as int] != rv[i as int]);
            return false;
        }
        i = i + 1;
    }
    assert(pv.subrange(0, r@.len() as int) =~= rv);
    true
}

/// The characters of `path` resolved against `root`.
fn resolve_chars(root: &Vec<char>, path: &Vec<char>) -> (r: Vec<char>)
    ensures
        r@ == resolve(root@, path@),
{
    if path.len() > 0 && path[0] == '/' {
        return path.clone();
    }
    if root.len() == 0 {
        return path.clone();
    }
    let mut out = root.clone();
    if root[root.len() - 1] != '/' {
        out.push('/');
    }
    let mut i: usize = 0;
    let ghost base = out@;
    while i < path.len()
        invariant
            i <= path.len(),
            out@ == base + path@.subrange(0, i as int),
        decreases path.len() - i,
    {
        out.push(path[i]);
        i = i + 1;
    }
    assert(path@.subrange(0, path.len() as int) =~= path@);
    out
}

impl FilesystemFileSearchMiddleware {
    /// A middleware searching under `root_path`, without ripgrep and with a
    /// 10 MiB file size limit.
    pub fn new(root_path: &str) -> (r: Self)
        ensures
            r.root_path@ == root_path@,
            !r.use_ripgrep,
            r.max_file_size == DEFAULT_MAX_FILE_SIZE,
    {
        FilesystemFileSearchMiddleware {
            root_path: String::from_str(root_path),
            use_ripgrep: false,
            max_file_size: DEFAULT_MAX_FILE_SIZE,
        }
    }

    /// Sets whether grep searches use ripgrep.
    pub fn with_ripgrep(self, use_ripgrep: bool) -> (r: Self)
        ensures
            r.root_path == self.root_path,
            r.use_ripgrep == use_ripgrep,
            r.max_file_size == self.max_file_size,
    {
        FilesystemFileSearchMiddleware { use_ripgrep, ..self }
    }

    /// Sets the largest file size, in bytes, that searches read.
    pub fn with_max_file_size(self, max_size: usize) -> (r: Self)
        ensures
            r.root_path == self.root_path,
            r.use_ripgrep == self.use_ripgrep,
            r.max_file_size == max_size,
    {
        FilesystemFileSearchMiddleware { max_file_size: max_size, ..self }
    }

    /// The middleware's name.
    pub fn name(&self) -> (r: &'static str)
        ensures
            r@ == "FilesystemFileSearchMiddleware"@,
    {
        "FilesystemFileSearchMiddleware"
    }

    /// Validate that a path is within the root directory (no traversal).
    ///
    /// On success returns the normalized path, resolved against the root.
    pub fn validate_path(&self, path: &str) -> (r: Result<String, RustChainError>)
        ensures
            within_root(self.root_path@, path@) ==> (r matches Ok(p) && p@ == render(
                norm_stack(resolve(self.root_path@, path@)),
            )),
            !within_root(self.root_path@, path@) ==> (r matches Err(RustChainError::Other(m))
                && m@ == traversal_message(path@, self.root_path@)),
    {
        let root = chars_of(self.root_path.as_str());
        let p = chars_of(path);
        let resolved = resolve_chars(&root, &p);
        let comps = path_components(&resolved);
        let root_comps = path_components(&root);
        if !components_prefix(&root_comps, &comps) {
            let mut msg = String::from_str("Path traversal detected: '");
            msg.append(path);
            msg.append("' is outside root '");
            push_string(&mut msg, &self.root_path);
            msg.append("'");
            return Err(RustChainError::Other(msg));
        }
        Ok(render_components(&comps))
    }
}


// ---------------------------------------------------------------------------
// Simple globs: `*` stands for any run of characters
// ---------------------------------------------------------------------------

/// The pieces of `p` between its `*`s, found after reading `i` characters:
/// the finished pieces and the open one.
pub open spec fn star_scan(p: Seq<char>, i: nat) -> (Seq<Seq<char>>, Seq<char>)
    decreases i,
{
    if i == 0 {
        (Seq::<Seq<char>>::empty(), Seq::<char>::empty())
    } else {
        let (done, cur) = star_scan(p, (i - 1) as nat);
        if p[i - 1] == '*' {
            (done.push(cur), Seq::<char>::empty())
        } else {
            (done, cur.push(p[i - 1]))
        }
    }
}

/// The pieces of `p` between its `*`s (as `str::split('*')` gives them).
pub open spec fn star_pieces(p: Seq<char>) -> Seq<Seq<char>> {
    let (done, cur) = star_scan(p, p.len());
    done.push(cur)
}

/// `q` occurs in `t` at `k`.
pub open spec fn occurs_at(t: Seq<char>, q: Seq<char>, k: int) -> bool {
    0 <= k && k + q.len() <= t.len() && t.subrange(k, k + q.len()) == q
}

/// The pieces `ps` occur in order, without overlapping, inside `t[start..end)`.
pub open spec fn floats(t: Seq<char>, start: int, end: int, ps: Seq<Seq<char>>) -> bool
    decreases ps.len(),
{
    if ps.len() == 0 {
        true
    } else {
        exists|k: int|
            #![trigger occurs_at(t, ps[0], k)]
            start <= k && k + ps[0].len() <= end && occurs_at(t, ps[0], k) && floats(
                t,
                k + ps[0].len(),
                end,
                ps.drop_first(),
            )
    }
}

/// Whether `text` matches the simple glob `pattern`: without `*` the two are
/// equal; otherwise the text starts with the first piece, ends with the last,
/// and holds the pieces in between in order, in the part that remains.
pub open spec fn simple_glob_match(text: Seq<char>, pattern: Seq<char>) -> bool {
    if !pattern.contains('*') {
        text == pattern
    } else {
        let ps = star_pieces(pattern);
        let f = ps[0];
        let l = ps.last();
        &&& f.len() + l.len() <= text.len()
        &&& text.subrange(0, f.len() as int) == f
        &&& text.subrange(text.len() - l.len(), text.len() as int) == l
        &&& floats(
            text,
            f.len() as int,
            text.len() - l.len(),
            ps.subrange(1, ps.len() - 1),
        )
    }
}

/// Once a `*` has been read, at least one piece is finished.
proof fn lemma_star_scan_done(p: Seq<char>, j: int, i: nat)
    requires
        0 <= j < i <= p.len(),
        p[j] == '*',
    ensures
        star_scan(p, i).0.len() >= 1,
    decreases i,
{
    if i > j + 1 {
        lemma_star_scan_done(p, j, (i - 1) as nat);
    }
}

proof fn lemma_pieces_of_star(p: Seq<char>)
    requires
        p.contains('*'),
    ensures
        star_pieces(p).len() >= 2,
{
    let j = choose|j: int| 0 <= j < p.len() && p[j] == '*';
    lemma_star_scan_done(p, j, p.len());
}

/// A later start only loses matches.
proof fn lemma_floats_earlier(t: Seq<char>, i: int, j: int, end: int, ps: Seq<Seq<char>>)
    requires
        i <= j,
        floats(t, j, end, ps),
    ensures
        floats(t, i, end, ps),
{
    if ps.len() > 0 {
        let k = choose|k: int|
            #![trigger occurs_at(t, ps[0], k)]
            j <= k && k + ps[0].len() <= end && occurs_at(t, ps[0], k) && floats(
                t,
                k + ps[0].len(),
                end,
                ps.drop_first(),
            );
        assert(occurs_at(t, ps[0], k));
    }
}

/// Whether `q` occurs in `t` at `k`.
fn occurs_at_exec(t: &Vec<char>, q: &Vec<char>, k: usize) -> (r: bool)
    ensures
        r == occurs_at(t@, q@, k as int),
{
    if k > t.len() || q.len() > t.len() - k {
        return false;
    }
    let mut i: usize = 0;
    while i < q.len()
        invariant
            k + q@.len() <= t@.len(),
            i <= q@.len(),
            forall|m: int| 0 <= m < i ==> t@[k + m] == q@[m],
        decreases q.len() - i,
    {
        assert(k + i < t.len());
        if t[k + i] != q[i] {
            assert(t@.subrange(k as int, k + q@.len())[i as int] != q@[i as int]);
            return false;
        }
        i = i + 1;
    }
    assert(t@.subrange(k as int, k + q@.len()) =~= q@);
    true
}

/// The leftmost occurrence of `q` in `t` that starts at or after `start` and
/// ends at or before `end`.
fn find_between(t: &Vec<char>, q: &Vec<char>, start: usize, end: usize) -> (r: Option<usize>)
    requires
        end <= t@.len(),
    ensures
        r matches Some(k) ==> start <= k && k + q@.len() <= end && occurs_at(t@, q@, k as int),
        r matches Some(k) ==> forall|m: int|
            start <= m < k ==> !#[trigger] occurs_at(t@, q@, m),
        r is None ==> forall|m: int|
            start <= m && m + q@.len() <= end ==> !#[trigger] occurs_at(t@, q@, m),
{
    if q.len() > end || start > end - q.len() {
        return None;
    }
    let last = end - q.len();
    let mut k: usize = start;
    while k <= last
        invariant
            start <= k,
            last + q@.len() == end,
            end <= t@.len(),
            forall|m: int| start <= m < k ==> !#[trigger] occurs_at(t@, q@, m),
        decreases last + 1 - k,
    {
        if occurs_at_exec(t, q, k) {
            return Some(k);
        }
        if k == last {
            return None;
        }
        k = k + 1;
    }
    None
}

/// The pieces of `p` between its `*`s.
fn split_stars(p: &Vec<char>) -> (r: Vec<Vec<char>>)
    ensures
        r@.map_values(|v: Vec<char>| v@) == star_pieces(p@),
{
    let mut done: Vec<Vec<char>> = Vec::new();
    let mut cur: Vec<char> = Vec::new();
    let mut i: usize = 0;
    assert(done@.map_values(|v: Vec<char>| v@) =~= Seq::<Seq<char>>::empty());
    while i < p.len()
        invariant
            i <= p.len(),
            (done@.map_values(|v: Vec<char>| v@), cur@) == star_scan(p@, i as nat),
        decreases p.len() - i,
    {
        if p[i] == '*' {
            let ghost before = done@.map_values(|v: Vec<char>| v@);
            let piece = cur;
            cur = Vec::new();
            let ghost pv = piece@;
            done.push(piece);
            assert(done@.map_values(|v: Vec<char>| v@) =~= before.push(pv));
        } else {
            cur.push(p[i]);
        }
        i = i + 1;
    }
    let ghost before = done@.map_values(|v: Vec<char>| v@);
    let ghost cv = cur@;
    done.push(cur);
    assert(done@.map_values(|v: Vec<char>| v@) =~= before.push(cv));
    done
}

/// Whether `c` occurs in `v`.
fn has_char(v: &Vec<char>, c: char) -> (r: bool)
    ensures
        r == v@.contains(c),
{
    let mut i: usize = 0;
    while i < v.len()
        invariant
            i <= v.len(),
            forall|m: int| 0 <= m < i ==> v@[m] != c,
        decreases v.len() - i,
    {
        if v[i] == c {
            assert(v@[i as int] == c);
            return true;
        }
        i = i + 1;
    }
    false
}

/// Simple glob matching (supports `*` as wildcard).
pub fn matches_simple_glob(text: &str, pattern: &str) -> (r: bool)
    ensures
        r == simple_glob_match(text@, pattern@),
{
    let t = chars_of(text);
    let p = chars_of(pattern);
    if !has_char(&p, '*') {
        return chars_eq(&t, &p);
    }
    let parts = split_stars(&p);
    let ghost ps = parts@.map_values(|v: Vec<char>| v@);
    proof {
        lemma_pieces_of_star(p@);
    }
    let n = parts.len();
    let f = &parts[0];
    let l = &parts[n - 1];
    assert(f@ == ps[0]);
    assert(l@ == ps.last());
    if f.len() > t.len() || l.len() > t.len() - f.len() {
        return false;
    }
    let end = t.len() - l.len();
    // the text must start with the first piece and end with the last
    if !occurs_at_exec(&t, f, 0) {
        assert(t@.subrange(0, f@.len() as int) != f@);
        return false;
    }
    if !occurs_at_exec(&t, l, end) {
        return false;
    }
    let ghost mid = ps.subrange(1, ps.len() - 1);
    // the pieces in between, each at its leftmost place
    let mut pos: usize = f.len();
    let mut i: usize = 1;
    while i < n - 1
        invariant
            n == parts@.len(),
            n >= 2,
            ps == parts@.map_values(|v: Vec<char>| v@),
            mid == ps.subrange(1, ps.len() - 1),
            1 <= i <= n - 1,
            t@ == text@,
            ps == star_pieces(pattern@),
            pattern@.contains('*'),
            f@ == ps[0],
            l@ == ps.last(),
            f@.len() + l@.len() <= t@.len(),
            t@.subrange(0, f@.len() as int) == f@,
            t@.subrange(end as int, t@.len() as int) == l@,
            end + l@.len() == t@.len(),
            end <= t@.len(),
            floats(t@, f@.len() as int, end as int, mid) == floats(
                t@,
                pos as int,
                end as int,
                ps.subrange(i as int, n - 1),
            ),
        decreases n - 1 - i,
    {
        let q = &parts[i];
        let ghost rest = ps.subrange(i as int, n - 1);
        assert(rest[0] == q@);
        assert(rest.drop_first() =~= ps.subrange(i + 1, n - 1));
        match find_between(&t, q, pos, end) {
            None => {
                assert(!floats(t@, pos as int, end as int, rest));
                return false;
            },
            Some(k) => {
                proof {
                    if floats(t@, pos as int, end as int, rest) {
                        let k2 = choose|k2: int|
                            #![trigger occurs_at(t@, rest[0], k2)]
                            pos <= k2 && k2 + rest[0].len() <= end && occurs_at(t@, rest[0], k2)
                                && floats(t@, k2 + rest[0].len(), end as int, rest.drop_first());
                        assert(occurs_at(t@, q@, k2));
                        lemma_floats_earlier(
                            t@,
                            k + q@.len(),
                            k2 + q@.len(),
                            end as int,
                            rest.drop_first(),
                        );
                    }
                    if floats(t@, k + q@.len(), end as int, rest.drop_first()) {
                        assert(occurs_at(t@, rest[0], k as int));
                    }
                }
                pos = k + q.len();
            },
        }
        i = i + 1;
    }
    assert(ps.subrange(n - 1, n - 1).len() == 0);
    true
}


// ---------------------------------------------------------------------------
// Globs with `**`, translated to regular expressions
// ---------------------------------------------------------------------------

/// Characters that a regular expression treats specially.
pub open spec fn is_regex_special(c: char) -> bool {
    c == '.' || c == '+' || c == '^' || c == '$' || c == '{' || c == '}' || c == '(' || c == ')'
        || c == '|' || c == '[' || c == ']' || c == '\\'
}

/// The regular expression text for a glob, without the anchors: `**/` may
/// skip any number of leading directories, `**` any text, `*` any text within
/// one segment, `?` one character of a segment; other characters stand for
/// themselves.
pub open spec fn glob_regex_body(p: Seq<char>) -> Seq<char>
    decreases p.len(),
{
    if p.len() == 0 {
        Seq::<char>::empty()
    } else if p.len() >= 2 && p[0] == '*' && p[1] == '*' {
        if p.len() >= 3 && p[2] == '/' {
            "(.*/)?"@ + glob_regex_body(p.skip(3))
        } else {
            ".*"@ + glob_regex_body(p.skip(2))
        }
    } else if p[0] == '*' {
        "[^/]*"@ + glob_regex_body(p.skip(1))
    } else if p[0] == '?' {
        "[^/]"@ + glob_regex_body(p.skip(1))
    } else if is_regex_special(p[0]) {
        seq!['\\', p[0]] + glob_regex_body(p.skip(1))
    } else {
        seq![p[0]] + glob_regex_body(p.skip(1))
    }
}

/// The anchored regular expression for a glob.
pub open spec fn glob_regex(p: Seq<char>) -> Seq<char> {
    seq!['^'] + glob_regex_body(p) + seq!['$']
}

/// Whether `c` is special in a regular expression.
fn regex_special(c: char) -> (r: bool)
    ensures
        r == is_regex_special(c),
{
    c == '.' || c == '+' || c == '^' || c == '$' || c == '{' || c == '}' || c == '(' || c == ')'
        || c == '|' || c == '[' || c == ']' || c == '\\'
}

/// The anchored regular expression that a `**` glob stands for.
pub fn glob_to_regex(pattern: &str) -> (r: String)
    ensures
        r@ == glob_regex(pattern@),
{
    let cs = chars_of(pattern);
    let n = cs.len();
    let mut out = String::new();
    push_char(&mut out, '^');
    let mut i: usize = 0;
    assert(cs@.skip(0) =~= cs@);
    while i < n
        invariant
            n == cs@.len(),
            cs@ == pattern@,
            i <= n,
            out@ + glob_regex_body(cs@.skip(i as int)) == seq!['^'] + glob_regex_body(cs@),
        decreases n - i,
    {
        let ghost rest = cs@.skip(i as int);
        let ghost before = out@;
        if i + 1 < n && cs[i] == '*' && cs[i + 1] == '*' {
            if i + 2 < n && cs[i + 2] == '/' {
                out.append("(.*/)?");
                assert(rest.skip(3) =~= cs@.skip(i + 3));
                i = i + 3;
            } else {
                out.append(".*");
                assert(rest.skip(2) =~= cs@.skip(i + 2));
                i = i + 2;
            }
        } else if cs[i] == '*' {
            out.append("[^/]*");
            assert(rest.skip(1) =~= cs@.skip(i + 1));
            i = i + 1;
        } else if cs[i] == '?' {
            out.append("[^/]");
            assert(rest.skip(1) =~= cs@.skip(i + 1));
            i = i + 1;
        } else {
            let c = cs[i];
            if regex_special(c) {
                push_char(&mut out, '\\');
            }
            push_char(&mut out, c);
            assert(rest.skip(1) =~= cs@.skip(i + 1));
            proof {
                if is_regex_special(c) {
                    assert(out@ =~= before + seq!['\\', c]);
                } else {
                    assert(out@ =~= before + seq![c]);
                }
            }
            i = i + 1;
        }
        assert(out@ + glob_regex_body(cs@.skip(i as int)) =~= before + glob_regex_body(rest));
    }
    assert(glob_regex_body(cs@.skip(n as int)) =~= Seq::<char>::empty());
    assert(out@ =~= seq!['^'] + glob_regex_body(cs@));
    push_char(&mut out, '$');
    out
}

/// Glob matching that supports `**` for recursive directory matching.
///
/// `**` matches any number of path segments (including zero).
/// `*` matches any characters except `/`.
pub fn matches_glob_pattern(text: &str, pattern: &str) -> (r: bool)
    ensures
        r == outcome_hit(regex_outcome(glob_regex(pattern@), text@)),
{
    let re = glob_to_regex(pattern);
    regex_matches(re.as_str(), text)
}

// ---------------------------------------------------------------------------
// Lines and grep hits
// ---------------------------------------------------------------------------

/// A finished line without the `\r` of a `\r\n` ending.
pub open spec fn strip_cr(x: Seq<char>) -> Seq<char> {
    if x.len() > 0 && x.last() == '\r' {
        x.drop_last()
    } else {
        x
    }
}

/// The lines finished after reading `i` characters, and the open one.
pub open spec fn lines_scan(s: Seq<char>, i: nat) -> (Seq<Seq<char>>, Seq<char>)
    decreases i,
{
    if i == 0 {
        (Seq::<Seq<char>>::empty(), Seq::<char>::empty())
    } else {
        let (done, cur) = lines_scan(s, (i - 1) as nat);
        if s[i - 1] == '\n' {
            (done.push(strip_cr(cur)), Seq::<char>::empty())
        } else {
            (done, cur.push(s[i - 1]))
        }
    }
}

/// The lines of `s`, as `str::lines` yields them: split at `\n` or `\r\n`,
/// with no empty line after a final line ending.
pub open spec fn lines_of(s: Seq<char>) -> Seq<Seq<char>> {
    let (done, cur) = lines_scan(s, s.len());
    if cur.len() > 0 {
        done.push(cur)
    } else {
        done
    }
}

/// Removes one trailing `\r`.
fn strip_cr_exec(v: Vec<char>) -> (r: Vec<char>)
    ensures
        r@ == strip_cr(v@),
{
    let mut v = v;
    if v.len() > 0 && v[v.len() - 1] == '\r' {
        v.pop();
    }
    v
}

/// The lines of a text.
pub fn text_lines(content: &str) -> (r: Vec<String>)
    ensures
        r@.map_values(|x: String| x@) == lines_of(content@),
{
    let cs = chars_of(content);
    let mut done: Vec<String> = Vec::new();
    let mut cur: Vec<char> = Vec::new();
    let mut i: usize = 0;
    assert(done@.map_values(|x: String| x@) =~= Seq::<Seq<char>>::empty());
    while i < cs.len()
        invariant
            cs@ == content@,
            i <= cs.len(),
            (done@.map_values(|x: String| x@), cur@) == lines_scan(cs@, i as nat),
        decreases cs.len() - i,
    {
        if cs[i] == '\n' {
            let ghost before = done@.map_values(|x: String| x@);
            let line = strip_cr_exec(cur);
            cur = Vec::new();
            let st = string_of_chars(&line);
            done.push(st);
            assert(done@.map_values(|x: String| x@) =~= before.push(line@));
        } else {
            cur.push(cs[i]);
        }
        i = i + 1;
    }
    if cur.len() > 0 {
        let ghost before = done@.map_values(|x: String| x@);
        let st = string_of_chars(&cur);
        done.push(st);
        assert(done@.map_values(|x: String| x@) =~= before.push(cur@));
    }
    done
}

/// The positions (from 0) among `lines[0..n)` of the lines where `pattern` matches.
pub open spec fn hit_lines(pattern: Seq<char>, lines: Seq<Seq<char>>, n: nat) -> Seq<int>
    decreases n,
{
    if n == 0 {
        Seq::<int>::empty()
    } else {
        let prev = hit_lines(pattern, lines, (n - 1) as nat);
        if outcome_hit(regex_outcome(pattern, lines[n - 1])) {
            prev.push(n - 1)
        } else {
            prev
        }
    }
}

/// The grep hits of one file's `content`, reported under `rel_path`.
///
/// In `Content` mode each matching line is a hit, numbered from 1; in
/// `FilesWithMatches` mode a file whose content matches gives one hit with
/// line number 0 and no content.
pub fn grep_content(pattern: &str, rel_path: &str, content: &str, output_mode: GrepOutputMode) -> (r:
    Vec<GrepMatch>)
    ensures
        output_mode == GrepOutputMode::Content ==> {
            let lines = lines_of(content@);
            let hits = hit_lines(pattern@, lines, lines.len());
            &&& r@.len() == hits.len()
            &&& forall|j: int|
                0 <= j < hits.len() ==> {
                    &&& (#[trigger] r@[j]).file_path@ == rel_path@
                    &&& r@[j].line_number == hits[j] + 1
                    &&& r@[j].line_content@ == lines[hits[j]]
                }
        },
        output_mode == GrepOutputMode::FilesWithMatches ==> {
            &&& r@.len() == (if outcome_hit(regex_outcome(pattern@, content@)) {
                1int
            } else {
                0int
            })
            &&& r@.len() == 1 ==> r@[0].file_path@ == rel_path@ && r@[0].line_number == 0
                && r@[0].line_content@.len() == 0
        },
{
    let mut results: Vec<GrepMatch> = Vec::new();
    match output_mode {
        GrepOutputMode::Content => {
            let lines = text_lines(content);
            let ghost ls = lines_of(content@);
            let mut i: usize = 0;
            while i < lines.len()
                invariant
                    i <= lines@.len(),
                    ls == lines@.map_values(|x: String| x@),
                    output_mode == GrepOutputMode::Content,
                    results@.len() == hit_lines(pattern@, ls, i as nat).len(),
                    forall|j: int|
                        0 <= j < results@.len() ==> {
                            &&& (#[trigger] results@[j]).file_path@ == rel_path@
                            &&& results@[j].line_number == hit_lines(pattern@, ls, i as nat)[j]
                                + 1
                            &&& results@[j].line_content@ == ls[hit_lines(
                                pattern@,
                                ls,
                                i as nat,
                            )[j]]
                        },
                    forall|j: int|
                        0 <= j < hit_lines(pattern@, ls, i as nat).len() ==> 0 <= #[trigger] hit_lines(
                            pattern@,
                            ls,
                            i as nat,
                        )[j] < i,
                decreases lines.len() - i,
            {
                assert(ls[i as int] == lines[i as int]@);
                if regex_matches(pattern, lines[i].as_str()) {
                    let m = GrepMatch {
                        file_path: String::from_str(rel_path),
                        line_number: i + 1,
                        line_content: lines[i].clone(),
                    };
                    results.push(m);
                }
                i = i + 1;
            }
        },
        GrepOutputMode::FilesWithMatches => {
            if regex_matches(pattern, content) {
                let m = GrepMatch {
                    file_path: String::from_str(rel_path),
                    line_number: 0,
                    line_content: String::new(),
                };
                results.push(m);
            }
        },
    }
    results
}

// ---------------------------------------------------------------------------
// Where a search starts
// ---------------------------------------------------------------------------

/// Whether `s` holds two dots in a row.
pub open spec fn has_dotdot(s: Seq<char>) -> bool {
    exists|i: int| 0 <= i && i + 1 < s.len() && s[i] == '.' && #[trigger] s[i + 1] == '.'
}

/// Whether `s` holds two dots in a row.
fn contains_dotdot(s: &str) -> (r: bool)
    ensures
        r == has_dotdot(s@),
{
    let cs = chars_of(s);
    let mut i: usize = 0;
    while cs.len() > 1 && i < cs.len() - 1
        invariant
            cs@ == s@,
            i <= cs@.len(),
            forall|k: int| 0 <= k < i && k + 1 < cs@.len() ==> !(cs@[k] == '.' && #[trigger] cs@[k + 1] == '.'),
        decreases cs.len() - i,
    {
        if cs[i] == '.' && cs[i + 1] == '.' {
            return true;
        }
        i = i + 1;
    }
    false
}

impl FilesystemFileSearchMiddleware {
    /// The directory a glob search walks: the validated subdirectory `path`,
    /// or the root.
    ///
    /// A pattern holding `..` is refused before the path is looked at.
    pub fn glob_search_root(&self, pattern: &str, path: Option<&str>) -> (r: Result<
        String,
        RustChainError,
    >)
        ensures
            has_dotdot(pattern@) ==> (r matches Err(RustChainError::Other(m)) && m@
                == "Glob pattern must not contain '..'"@),
            !has_dotdot(pattern@) && path is None ==> (r matches Ok(s) && s@ == self.root_path@),
            !has_dotdot(pattern@) && path is Some ==> {
                let p = path.unwrap()@;
                &&& within_root(self.root_path@, p) ==> (r matches Ok(s) && s@ == render(
                    norm_stack(resolve(self.root_path@, p)),
                ))
                &&& !within_root(self.root_path@, p) ==> (r matches Err(RustChainError::Other(m))
                    && m@ == traversal_message(p, self.root_path@))
            },
    {
        if contains_dotdot(pattern) {
            return Err(RustChainError::Other(String::from_str("Glob pattern must not contain '..'")));
        }
        match path {
            Some(p) => self.validate_path(p),
            None => Ok(self.root_path.clone()),
        }
    }

    /// The directory a grep search walks: the validated subdirectory `path`,
    /// or the root.
    ///
    /// A pattern that does not compile is refused before the path is looked at.
    pub fn grep_search_root(&self, pattern: &str, path: Option<&str>) -> (r: Result<
        String,
        RustChainError,
    >)
        ensures
            regex_outcome(pattern@, Seq::<char>::empty()) matches Err(e) ==> (r matches Err(
                RustChainError::Other(m),
            ) && m@ == "Invalid regex pattern '"@ + pattern@ + "': "@ + e),
            regex_outcome(pattern@, Seq::<char>::empty()) is Ok && path is None ==> (r matches Ok(
                s,
            ) && s@ == self.root_path@),
            regex_outcome(pattern@, Seq::<char>::empty()) is Ok && path is Some ==> {
                let p = path.unwrap()@;
                &&& within_root(self.root_path@, p) ==> (r matches Ok(s) && s@ == render(
                    norm_stack(resolve(self.root_path@, p)),
                ))
                &&& !within_root(self.root_path@, p) ==> (r matches Err(RustChainError::Other(m))
                    && m@ == traversal_message(p, self.root_path@))
            },
    {
        let empty = String::new();
        if let Err(e) = regex_is_match(pattern, empty.as_str()) {
            let mut msg = String::from_str("Invalid regex pattern '");
            msg.append(pattern);
            msg.append("': ");
            push_string(&mut msg, &e);
            return Err(RustChainError::Other(msg));
        }
        match path {
            Some(p) => self.validate_path(p),
            None => Ok(self.root_path.clone()),
        }
    }

    /// Whether a file of `size` bytes is small enough to be searched.
    pub fn within_size_limit(&self, size: u64) -> (r: bool)
        ensures
            r == (size <= self.max_file_size),
    {
        size as u128 <= self.max_file_size as u128
    }
}

/// Whether a directory is skipped by searches: hidden ones are.
pub fn is_hidden_name(name: &str) -> (r: bool)
    ensures
        r == (name@.len() > 0 && name@[0] == '.'),
{
    name.unicode_len() > 0 && name.get_char(0) == '.'
}

} // verus!
