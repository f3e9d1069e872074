//! Request-path policy: which requested names are refused, how virtual roots
//! (alias prefixes mapped to other directories) are matched, and which
//! directory and relative path a request resolves to. The filesystem itself
//! (canonicalisation, symlinks, existence) is consulted by the caller.

use vstd::prelude::*;
use vstd::utf8::{encode_scalar, encode_utf8};

use crate::tftp::protocol::packet::{
    control_char_message, control_char_text, dot_pair_at, first_control_from, has_byte,
    has_dot_dot, lemma_first_control_none, ErrorCode,
};
use crate::tftp::text::{chars_of, lemma_strip_slashes_leading, skip_slashes, string_from, strip_slashes};

verus! {

broadcast use vstd::string::group_string_axioms;

#[derive(Debug)]
pub enum FsError {
    AccessViolation(String),
    FileNotFound(String),
    InvalidPath(String),
}

pub enum FsErrorView {
    AccessViolation(Seq<char>),
    FileNotFound(Seq<char>),
    InvalidPath(Seq<char>),
}

impl View for FsError {
    type V = FsErrorView;

    open spec fn view(&self) -> FsErrorView {
        match self {
            FsError::AccessViolation(m) => FsErrorView::AccessViolation(m@),
            FsError::FileNotFound(m) => FsErrorView::FileNotFound(m@),
            FsError::InvalidPath(m) => FsErrorView::InvalidPath(m@),
        }
    }
}

impl FsError {
    /// The error as text: `access violation: ..`, `file not found: ..` or
    /// `invalid path: ..`.
    pub fn to_string(&self) -> (r: String)
        ensures
            r@ == match self@ {
                FsErrorView::AccessViolation(m) => "access violation: "@ + m,
                FsErrorView::FileNotFound(m) => "file not found: "@ + m,
                FsErrorView::InvalidPath(m) => "invalid path: "@ + m,
            },
    {
        let (mut out, m) = match self {
            FsError::AccessViolation(m) => ("access violation: ".to_string(), m),
            FsError::FileNotFound(m) => ("file not found: ".to_string(), m),
            FsError::InvalidPath(m) => ("invalid path: ".to_string(), m),
        };
        out.append(m.as_str());
        out
    }
}

/// Why a requested path (given by its UTF-8 bytes) is refused, if it is:
/// a control character, a `..`, or a `~`, checked in this order.
pub open spec fn path_problem(b: Seq<u8>) -> Option<FsErrorView> {
    if first_control_from(b, 0) is Some {
        Some(FsErrorView::InvalidPath(control_char_text(first_control_from(b, 0)->0, "path"@)))
    } else if has_dot_dot(b) {
        Some(FsErrorView::AccessViolation("path traversal attempt (..)"@))
    } else if has_byte(b, 0x7e) {
        Some(FsErrorView::AccessViolation("tilde in path"@))
    } else {
        None
    }
}

pub fn validate_requested_path(requested: &str) -> (r: Result<(), FsError>)
    ensures
        match r {
            Ok(()) => path_problem(encode_utf8(requested@)) is None,
            Err(e) => path_problem(encode_utf8(requested@)) == Some(e@),
        },
{
    let b = requested.as_bytes();
    let mut k: usize = 0;
    while k < b.len()
        invariant
            b@ == encode_utf8(requested@),
            first_control_from(b@, 0) == first_control_from(b@, k as int),
        decreases b.len() - k,
    {
        if b[k] < 0x20 {
            return Err(FsError::InvalidPath(control_char_message(b[k], "path")));
        }
        k = k + 1;
    }
    assert(first_control_from(b@, 0) is None);
    if b.len() > 0 {
        let mut i: usize = 0;
        while i + 1 < b.len()
            invariant
                i < b@.len(),
                b@ == encode_utf8(requested@),
                first_control_from(b@, 0) is None,
                forall|k: int| 0 <= k < i ==> !#[trigger] dot_pair_at(b@, k),
            decreases b.len() - i,
        {
            if b[i] == 0x2e && b[i + 1] == 0x2e {
                assert(dot_pair_at(b@, i as int));
                return Err(FsError::AccessViolation("path traversal attempt (..)".to_string()));
            }
            i = i + 1;
        }
    }
    let mut j: usize = 0;
    while j < b.len()
        invariant
            b@ == encode_utf8(requested@),
            first_control_from(b@, 0) is None,
            !has_dot_dot(b@),
            forall|k: int| 0 <= k < j ==> b@[k] != 0x7e,
        decreases b.len() - j,
    {
        if b[j] == 0x7e {
            return Err(FsError::AccessViolation("tilde in path".to_string()));
        }
        j = j + 1;
    }
    Ok(())
}

/// The error code with which a failed read request is answered.
pub open spec fn spec_read_error_code(e: FsErrorView) -> ErrorCode {
    match e {
        FsErrorView::FileNotFound(_) => ErrorCode::FileNotFound,
        FsErrorView::AccessViolation(_) => ErrorCode::AccessViolation,
        _ => ErrorCode::NotDefined,
    }
}

pub fn read_error_code(e: &FsError) -> (r: ErrorCode)
    ensures
        r == spec_read_error_code(e@),
{
    match e {
        FsError::FileNotFound(_) => ErrorCode::FileNotFound,
        FsError::AccessViolation(_) => ErrorCode::AccessViolation,
        _ => ErrorCode::NotDefined,
    }
}


// ─── Virtual roots ─────────────────────────────────────────────────────────

/// An alias prefix and the physical directory it stands for.
pub type RootEntry = (Seq<char>, Seq<char>);

/// Entries are ordered by the byte length of their alias.
pub open spec fn alias_len(e: RootEntry) -> nat {
    encode_utf8(e.0).len()
}

/// Position at which `x` goes into `s` (sorted by decreasing alias length):
/// before the first entry with a shorter alias, so ties keep their order.
pub open spec fn insert_pos(s: Seq<RootEntry>, x: RootEntry, i: int) -> int
    decreases s.len() - i,
{
    if i < 0 || i >= s.len() {
        s.len() as int
    } else if alias_len(s[i]) < alias_len(x) {
        i
    } else {
        insert_pos(s, x, i + 1)
    }
}

pub open spec fn insert_sorted(s: Seq<RootEntry>, x: RootEntry) -> Seq<RootEntry> {
    s.insert(insert_pos(s, x, 0), x)
}

/// A stable sort of `s` by decreasing alias length (longest prefix first).
pub open spec fn sort_roots(s: Seq<RootEntry>) -> Seq<RootEntry> {
    s.fold_left(Seq::empty(), |acc: Seq<RootEntry>, x: RootEntry| insert_sorted(acc, x))
}

/// The entries as configured: aliases with their leading separators removed.
pub open spec fn root_entries(map: Seq<(String, String)>) -> Seq<RootEntry> {
    map.map_values(|e: (String, String)| (strip_slashes(e.0@), e.1@))
}

/// Virtual roots mapping: alias prefix → physical directory, longest alias first.
#[derive(Debug, Clone, Default)]
pub struct VirtualRoots {
    roots: Vec<(String, String)>,
}

impl View for VirtualRoots {
    type V = Seq<RootEntry>;

    closed spec fn view(&self) -> Seq<RootEntry> {
        self.roots@.map_values(|e: (String, String)| (e.0@, e.1@))
    }
}

/// Virtual-root lookup of an already normalised request `n`, trying the
/// entries from index `i` on: the first alias that is a prefix of `n` decides;
/// what follows the alias (separators stripped) is the path below the
/// physical root, and an empty remainder (a directory) resolves to nothing.
pub open spec fn spec_resolve_from(roots: Seq<RootEntry>, n: Seq<char>, i: int) -> Option<
    (Seq<char>, Seq<char>),
>
    decreases roots.len() - i,
{
    if i < 0 || i >= roots.len() {
        None
    } else if roots[i].0.len() <= n.len() && n.take(roots[i].0.len() as int) == roots[i].0 {
        let rest = strip_slashes(n.skip(roots[i].0.len() as int));
        if rest.len() == 0 {
            None
        } else {
            Some((roots[i].1, rest))
        }
    } else {
        spec_resolve_from(roots, n, i + 1)
    }
}

pub open spec fn spec_resolve(roots: Seq<RootEntry>, requested: Seq<char>) -> Option<
    (Seq<char>, Seq<char>),
> {
    spec_resolve_from(roots, strip_slashes(requested), 0)
}

impl VirtualRoots {
    /// The roots of `map` (alias, directory), sorted for longest-prefix match.
    pub fn new(map: &Vec<(String, String)>) -> (r: Self)
        ensures
            r@ == sort_roots(root_entries(map@)),
    {
        let ghost entries = root_entries(map@);
        let ghost f = |acc: Seq<RootEntry>, x: RootEntry| insert_sorted(acc, x);
        let mut roots: Vec<(String, String)> = Vec::new();
        let mut i: usize = 0;
        assert(entries.take(0) =~= Seq::<RootEntry>::empty());
        while i < map.len()
            invariant
                i <= map@.len(),
                entries == root_entries(map@),
                f == (|acc: Seq<RootEntry>, x: RootEntry| insert_sorted(acc, x)),
                roots@.map_values(|e: (String, String)| (e.0@, e.1@)) == entries.take(
                    i as int,
                ).fold_left(Seq::empty(), f),
            decreases map.len() - i,
        {
            let alias_src = map[i].0.as_str();
            let chars = chars_of(alias_src);
            let start = skip_slashes(&chars, 0);
            assert(chars@.skip(0) =~= chars@);
            let alias = string_from(alias_src, start);
            let key = alias.as_str().as_bytes().len();
            let path = map[i].1.clone();
            let ghost x: RootEntry = (alias@, path@);
            assert(x == entries[i as int]);
            let ghost cur = roots@.map_values(|e: (String, String)| (e.0@, e.1@));
            let mut pos: usize = 0;
            while pos < roots.len() && roots[pos].0.as_str().as_bytes().len() >= key
                invariant
                    pos <= roots@.len(),
                    cur == roots@.map_values(|e: (String, String)| (e.0@, e.1@)),
                    key == alias_len(x),
                    insert_pos(cur, x, 0) == insert_pos(cur, x, pos as int),
                decreases roots.len() - pos,
            {
                pos = pos + 1;
            }
            roots.insert(pos, (alias, path));
            proof {
                assert(roots@.map_values(|e: (String, String)| (e.0@, e.1@)) =~= insert_sorted(
                    cur,
                    x,
                ));
                assert(entries.take(i + 1).drop_last() =~= entries.take(i as int));
            }
            i = i + 1;
        }
        assert(entries.take(map@.len() as int) =~= entries);
        VirtualRoots { roots }
    }

    /// Try to resolve a path through virtual roots.
    /// Returns (physical_root, remaining_path) if matched.
    pub fn resolve(&self, requested: &str) -> (r: Option<(String, String)>)
        ensures
            match r {
                None => spec_resolve(self@, requested@) is None,
                Some((p, rest)) => spec_resolve(self@, requested@) == Some((p@, rest@)),
            },
    {
        let v = chars_of(requested);
        let j = skip_slashes(&v, 0);
        assert(v@.skip(0) =~= v@);
        let ghost n = v@.skip(j as int);
        let ghost roots_v = self@;
        let mut i: usize = 0;
        while i < self.roots.len()
            invariant
                i <= self.roots@.len(),
                j <= v@.len(),
                v@ == requested@,
                n == v@.skip(j as int),
                n == strip_slashes(requested@),
                roots_v == self@,
                roots_v == self.roots@.map_values(|e: (String, String)| (e.0@, e.1@)),
                spec_resolve_from(roots_v, n, 0) == spec_resolve_from(roots_v, n, i as int),
            decreases self.roots.len() - i,
        {
            let a = chars_of(self.roots[i].0.as_str());
            assert(a@ == roots_v[i as int].0);
            let vlen = v.len();
            let mut matches = a.len() <= vlen - j;
            let mut k: usize = 0;
            while matches && k < a.len()
                invariant
                    k <= a@.len(),
                    matches ==> a@.len() <= n.len(),
                    matches ==> j + a@.len() <= v@.len(),
                    matches ==> forall|t: int| 0 <= t < k ==> n[t] == a@[t],
                    !matches ==> !(a@.len() <= n.len() && n.take(a@.len() as int) == a@),
                    j <= v@.len(),
                    vlen == v@.len(),
                    n == v@.skip(j as int),
                decreases a.len() - k,
            {
                assert(j + k < v@.len());
                if v[j + k] != a[k] {
                    assert(n[k as int] != a@[k as int]);
                    assert(n.take(a@.len() as int)[k as int] != a@[k as int]);
                    matches = false;
                }
                k = k + 1;
            }
            if matches {
                assert(n.take(a@.len() as int) =~= a@);
                let rest_start = skip_slashes(&v, j + a.len());
                assert(v@.skip(j + a@.len()) =~= n.skip(a@.len() as int));
                if rest_start == v.len() {
                    assert(v@.skip(rest_start as int) =~= Seq::<char>::empty());
                    return None;
                }
                let physical = self.roots[i].1.clone();
                let rest = string_from(requested, rest_start);
                return Some((physical, rest));
            }
            i = i + 1;
        }
        None
    }
}


// ─── Where a request goes ──────────────────────────────────────────────────

/// The directory a request resolves under, and the path below it.
#[derive(Debug, Clone, PartialEq, Eq)]
pub enum RequestTarget {
    /// Below the physical directory `root` of a virtual root.
    Virtual { root: String, rest: String },
    /// Below the server's root directory.
    Main { rest: String },
}

pub enum RequestTargetView {
    Virtual { root: Seq<char>, rest: Seq<char> },
    Main { rest: Seq<char> },
}

impl View for RequestTarget {
    type V = RequestTargetView;

    open spec fn view(&self) -> RequestTargetView {
        match self {
            RequestTarget::Virtual { root, rest } => RequestTargetView::Virtual {
                root: root@,
                rest: rest@,
            },
            RequestTarget::Main { rest } => RequestTargetView::Main { rest: rest@ },
        }
    }
}

/// The path below the main root that `requested` names: it must pass
/// `path_problem`, leading separators are dropped, and nothing may be left
/// empty.
pub open spec fn spec_relative_path(requested: Seq<char>) -> Result<Seq<char>, FsErrorView> {
    if path_problem(encode_utf8(requested)) is Some {
        Err(path_problem(encode_utf8(requested))->0)
    } else if strip_slashes(requested).len() == 0 {
        Err(FsErrorView::InvalidPath("empty path"@))
    } else {
        Ok(strip_slashes(requested))
    }
}

/// The request-checking part of resolving a path against the server root.
pub fn relative_request_path(requested: &str) -> (r: Result<String, FsError>)
    ensures
        match r {
            Ok(p) => spec_relative_path(requested@) == Ok::<Seq<char>, FsErrorView>(p@),
            Err(e) => spec_relative_path(requested@) == Err::<Seq<char>, FsErrorView>(e@),
        },
{
    match validate_requested_path(requested) {
        Ok(()) => {},
        Err(e) => return Err(e),
    }
    let v = chars_of(requested);
    let j = skip_slashes(&v, 0);
    assert(v@.skip(0) =~= v@);
    if j == v.len() {
        assert(v@.skip(j as int) =~= Seq::<char>::empty());
        return Err(FsError::InvalidPath("empty path".to_string()));
    }
    Ok(string_from(requested, j))
}

/// Where a request resolves: virtual roots are tried first, then the main
/// root.
pub open spec fn spec_route(roots: Seq<RootEntry>, requested: Seq<char>) -> Result<
    RequestTargetView,
    FsErrorView,
> {
    if path_problem(encode_utf8(requested)) is Some {
        Err(path_problem(encode_utf8(requested))->0)
    } else {
        match spec_resolve(roots, requested) {
            Some((root, rest)) => Ok(RequestTargetView::Virtual { root, rest }),
            None => match spec_relative_path(requested) {
                Ok(rest) => Ok(RequestTargetView::Main { rest }),
                Err(e) => Err(e),
            },
        }
    }
}

/// The request-checking part of resolving a path with virtual roots.
pub fn route_request(virtual_roots: &VirtualRoots, requested: &str) -> (r: Result<
    RequestTarget,
    FsError,
>)
    ensures
        match r {
            Ok(t) => spec_route(virtual_roots@, requested@) == Ok::<
                RequestTargetView,
                FsErrorView,
            >(t@),
            Err(e) => spec_route(virtual_roots@, requested@) == Err::<
                RequestTargetView,
                FsErrorView,
            >(e@),
        },
{
    match validate_requested_path(requested) {
        Ok(()) => {},
        Err(e) => return Err(e),
    }
    if let Some((root, rest)) = virtual_roots.resolve(requested) {
        return Ok(RequestTarget::Virtual { root, rest });
    }
    match relative_request_path(requested) {
        Ok(rest) => Ok(RequestTarget::Main { rest }),
        Err(e) => Err(e),
    }
}

proof fn lemma_resolve_nonempty(roots: Seq<RootEntry>, n: Seq<char>, i: int)
    ensures
        spec_resolve_from(roots, n, i) matches Some((_, rest)) ==> rest.len() > 0,
    decreases roots.len() - i,
{
    if 0 <= i < roots.len() {
        lemma_resolve_nonempty(roots, n, i + 1);
    }
}

/// A request that resolves has passed the name checks (no control character,
/// `..` or `~`), and the path it resolves to below its directory is never
/// empty: a directory itself is never served.
pub proof fn lemma_routed_request_checked(roots: Seq<RootEntry>, requested: Seq<char>)
    requires
        spec_route(roots, requested) is Ok,
    ensures
        path_problem(encode_utf8(requested)) is None,
        match spec_route(roots, requested) {
            Ok(RequestTargetView::Virtual { rest, .. }) => rest.len() > 0,
            Ok(RequestTargetView::Main { rest }) => rest.len() > 0,
            Err(_) => false,
        },
{
    lemma_resolve_nonempty(roots, strip_slashes(requested), 0);
}


/// The components of a path, each as its bytes.
pub open spec fn components_view(c: Seq<Vec<u8>>) -> Seq<Seq<u8>> {
    c.map_values(|x: Vec<u8>| x@)
}

/// Whether a path (by its components) lies at or below a root: the root's
/// components are the first components of the path.
pub open spec fn within_root(path: Seq<Seq<u8>>, root: Seq<Seq<u8>>) -> bool {
    root.len() <= path.len() && path.take(root.len() as int) == root
}

fn bytes_eq(a: &[u8], b: &[u8]) -> (r: bool)
    ensures
        r == (a@ == b@),
{
    if a.len() != b.len() {
        return false;
    }
    let mut i: usize = 0;
    while i < a.len()
        invariant
            a@.len() == b@.len(),
            i <= a@.len(),
            forall|k: int| 0 <= k < i ==> a@[k] == b@[k],
        decreases a.len() - i,
    {
        if a[i] != b[i] {
            return false;
        }
        i = i + 1;
    }
    assert(a@ =~= b@);
    true
}

/// The last check of a resolved path: given the components of the resolved
/// path and of the root (both canonical), refuse a path that is not at or
/// below the root, naming the request as it came (`stripped`).
pub fn check_within_root(path: &Vec<Vec<u8>>, root: &Vec<Vec<u8>>, stripped: &str) -> (r: Result<
    (),
    FsError,
>)
    ensures
        match r {
            Ok(()) => within_root(components_view(path@), components_view(root@)),
            Err(e) => !within_root(components_view(path@), components_view(root@)) && e@
                == FsErrorView::AccessViolation("resolved path escapes root: "@ + stripped@),
        },
{
    let ghost pv = components_view(path@);
    let ghost rv = components_view(root@);
    let mut within = root.len() <= path.len();
    let mut i: usize = 0;
    while within && i < root.len()
        invariant
            pv == components_view(path@),
            rv == components_view(root@),
            within ==> root@.len() <= path@.len(),
            i <= root@.len(),
            within ==> forall|k: int| 0 <= k < i ==> pv[k] == rv[k],
            !within ==> !within_root(pv, rv),
        decreases root.len() - i + (if within { 1int } else { 0int }),
    {
        if !bytes_eq(path[i].as_slice(), root[i].as_slice()) {
            assert(pv.take(rv.len() as int)[i as int] != rv[i as int]);
            within = false;
        } else {
            i = i + 1;
        }
    }
    if within {
        assert(pv.take(rv.len() as int) =~= rv);
        Ok(())
    } else {
        let mut m = "resolved path escapes root: ".to_string();
        m.append(stripped);
        Err(FsError::AccessViolation(m))
    }
}

proof fn lemma_first_control_after(x: u8, b: Seq<u8>, i: int)
    requires
        0 <= i,
    ensures
        first_control_from(seq![x] + b, i + 1) == first_control_from(b, i),
    decreases b.len() - i,
{
    if i < b.len() && b[i] >= 0x20 {
        lemma_first_control_after(x, b, i + 1);
    }
}

/// Prefixing a checked path with `/` changes none of the checks.
proof fn lemma_path_problem_leading_slash(r: Seq<char>)
    ensures
        path_problem(encode_utf8(seq!['/'] + r)) == path_problem(encode_utf8(r)),
{
    let s = seq!['/'] + r;
    let b = encode_utf8(r);
    assert(s[0] == '/');
    assert(s.drop_first() =~= r);
    assert(('/' as u32) == 0x2fu32);
    assert(0x2fu32 & 0x7Fu32 == 0x2fu32) by (bit_vector);
    assert(encode_scalar('/' as u32) =~= seq![0x2fu8]);
    let e = seq![0x2fu8] + b;
    assert(encode_utf8(s) == e);
    lemma_first_control_after(0x2f, b, 0);
    assert(first_control_from(e, 0) == first_control_from(e, 1));
    assert(has_dot_dot(e) == has_dot_dot(b)) by {
        if has_dot_dot(e) {
            let k = choose|k: int| #[trigger] dot_pair_at(e, k);
            assert(k >= 1);
            assert(dot_pair_at(b, k - 1));
        }
        if has_dot_dot(b) {
            let k = choose|k: int| #[trigger] dot_pair_at(b, k);
            assert(dot_pair_at(e, k + 1));
        }
    }
    assert(has_byte(e, 0x7e) == has_byte(b, 0x7e)) by {
        if has_byte(e, 0x7e) {
            let k = choose|k: int| 0 <= k < e.len() && e[k] == 0x7e;
            assert(k >= 1 && b[k - 1] == 0x7e);
        }
        if has_byte(b, 0x7e) {
            let k = choose|k: int| 0 <= k < b.len() && b[k] == 0x7e;
            assert(e[k + 1] == 0x7e);
        }
    }
}

/// A requested path is refused exactly when it holds a byte below 0x20, a
/// "..", or a `~`; every other path passes the checks.
pub proof fn lemma_path_refusals(b: Seq<u8>)
    ensures
        path_problem(b) is None <==> ((forall|i: int| 0 <= i < b.len() ==> b[i] != 0x7e && b[i]
            >= 0x20) && (forall|i: int|
            0 <= i && i + 1 < b.len() ==> !(#[trigger] b[i] == 0x2e && b[i + 1] == 0x2e))),
{
    lemma_first_control_none(b, 0);
    let bytes_ok = forall|i: int| 0 <= i < b.len() ==> b[i] != 0x7e && b[i] >= 0x20;
    let no_pair = forall|i: int|
        0 <= i && i + 1 < b.len() ==> !(#[trigger] b[i] == 0x2e && b[i + 1] == 0x2e);
    assert(no_pair <==> !has_dot_dot(b)) by {
        if has_dot_dot(b) {
            let k = choose|k: int| #[trigger] dot_pair_at(b, k);
            assert(b[k] == 0x2e && b[k + 1] == 0x2e);
        }
        if !no_pair {
            let k = choose|k: int|
                !(0 <= k && k + 1 < b.len() ==> !(#[trigger] b[k] == 0x2e && b[k + 1] == 0x2e));
            assert(dot_pair_at(b, k));
        }
    }
    assert(bytes_ok <==> (!has_byte(b, 0x7e) && first_control_from(b, 0) is None)) by {
        if has_byte(b, 0x7e) {
            let k = choose|k: int| 0 <= k < b.len() && b[k] == 0x7e;
            assert(b[k] == 0x7e);
        }
        if bytes_ok {
            assert forall|k: int| 0 <= k < b.len() implies b[k] >= 0x20 by {}
        }
        if !bytes_ok {
            let k = choose|k: int| !(0 <= k < b.len() ==> b[k] != 0x7e && b[k] >= 0x20);
            if b[k] == 0x7e {
                assert(has_byte(b, 0x7e));
            } else {
                assert(!(forall|j: int| 0 <= j < b.len() ==> b[j] >= 0x20));
            }
        }
    }
}

/// A leading `/` does not change how a request is routed: the same checks
/// fail, the same virtual root matches with the same rest, or the same path
/// under the main root is taken.
pub proof fn lemma_leading_slash_routes_alike(roots: Seq<RootEntry>, requested: Seq<char>)
    ensures
        spec_route(roots, seq!['/'] + requested) == spec_route(roots, requested),
        spec_relative_path(seq!['/'] + requested) == spec_relative_path(requested),
{
    lemma_path_problem_leading_slash(requested);
    lemma_strip_slashes_leading(requested);
}

/// Longest alias first: no entry has a longer alias than one before it.
pub open spec fn longest_first(s: Seq<RootEntry>) -> bool {
    forall|i: int, j: int| 0 <= i < j < s.len() ==> alias_len(#[trigger] s[i]) >= alias_len(#[trigger] s[j])
}

proof fn lemma_insert_pos_bounds(s: Seq<RootEntry>, x: RootEntry, i: int)
    requires
        0 <= i <= s.len(),
    ensures
        i <= insert_pos(s, x, i) <= s.len(),
        forall|k: int| i <= k < insert_pos(s, x, i) ==> alias_len(#[trigger] s[k]) >= alias_len(x),
        insert_pos(s, x, i) < s.len() ==> alias_len(s[insert_pos(s, x, i)]) < alias_len(x),
    decreases s.len() - i,
{
    if i < s.len() && alias_len(s[i]) >= alias_len(x) {
        lemma_insert_pos_bounds(s, x, i + 1);
    }
}

proof fn lemma_insert_sorted_keeps_order(s: Seq<RootEntry>, x: RootEntry)
    requires
        longest_first(s),
    ensures
        longest_first(insert_sorted(s, x)),
        insert_sorted(s, x).to_multiset() == s.to_multiset().insert(x),
{
    let p = insert_pos(s, x, 0);
    lemma_insert_pos_bounds(s, x, 0);
    let t = insert_sorted(s, x);
    assert forall|i: int, j: int| 0 <= i < j < t.len() implies alias_len(#[trigger] t[i]) >= alias_len(
        #[trigger] t[j],
    ) by {
        if j < p {
            assert(t[i] == s[i] && t[j] == s[j]);
        } else if j == p {
            assert(t[i] == s[i]);
        } else if i == p {
            assert(t[j] == s[j - 1]);
            assert(alias_len(s[p]) < alias_len(x));
            if j - 1 > p {
                assert(alias_len(s[p]) >= alias_len(s[j - 1]));
            }
        } else if i < p {
            assert(t[i] == s[i] && t[j] == s[j - 1]);
        } else {
            assert(t[i] == s[i - 1] && t[j] == s[j - 1]);
        }
    }
    vstd::seq_lib::to_multiset_insert(s, p, x);
}

/// Sorting the virtual roots puts the longest aliases first and keeps every
/// entry (as often as it was configured).
pub proof fn lemma_sort_roots_longest_first(s: Seq<RootEntry>)
    ensures
        longest_first(sort_roots(s)),
        sort_roots(s).to_multiset() == s.to_multiset(),
    decreases s.len(),
{
    broadcast use vstd::seq_lib::group_to_multiset_ensures, vstd::multiset::group_multiset_axioms;

    if s.len() == 0 {
        assert(sort_roots(s) == Seq::<RootEntry>::empty());
        assert(s.to_multiset() =~= vstd::multiset::Multiset::<RootEntry>::empty());
        assert(sort_roots(s).to_multiset() =~= vstd::multiset::Multiset::<RootEntry>::empty());
    } else {
        lemma_sort_roots_longest_first(s.drop_last());
        assert(sort_roots(s) == insert_sorted(sort_roots(s.drop_last()), s.last()));
        lemma_insert_sorted_keeps_order(sort_roots(s.drop_last()), s.last());
        assert(s.drop_last().push(s.last()) =~= s);
        vstd::seq_lib::to_multiset_build(s.drop_last(), s.last());
    }
}

/// Whether the alias of `e` is a prefix of `n`.
pub open spec fn alias_matches(e: RootEntry, n: Seq<char>) -> bool {
    e.0.len() <= n.len() && n.take(e.0.len() as int) == e.0
}

/// The first entry from index `i` on whose alias is a prefix of `n`.
pub open spec fn first_match(roots: Seq<RootEntry>, n: Seq<char>, i: int) -> Option<int>
    decreases roots.len() - i,
{
    if i < 0 || i >= roots.len() {
        None
    } else if alias_matches(roots[i], n) {
        Some(i)
    } else {
        first_match(roots, n, i + 1)
    }
}

proof fn lemma_first_match_decides(roots: Seq<RootEntry>, n: Seq<char>, i: int)
    requires
        0 <= i,
    ensures
        match first_match(roots, n, i) {
            Some(k) => i <= k < roots.len() && alias_matches(roots[k], n) && (forall|j: int|
                i <= j < k ==> !alias_matches(#[trigger] roots[j], n)) && spec_resolve_from(
                roots,
                n,
                i,
            ) == if strip_slashes(n.skip(roots[k].0.len() as int)).len() == 0 {
                None
            } else {
                Some((roots[k].1, strip_slashes(n.skip(roots[k].0.len() as int))))
            },
            None => spec_resolve_from(roots, n, i) is None && forall|j: int|
                i <= j < roots.len() ==> !alias_matches(#[trigger] roots[j], n),
        },
    decreases roots.len() - i,
{
    if i < roots.len() && !alias_matches(roots[i], n) {
        lemma_first_match_decides(roots, n, i + 1);
    }
}

/// Virtual roots pick the longest alias that fits: when a request is looked
/// up in the sorted roots, the entry that decides has an alias at least as
/// long (in bytes) as every other alias that is a prefix of the request, and
/// the request resolves below that entry's directory exactly when something
/// is left after the alias.
pub proof fn lemma_resolve_longest_alias(entries: Seq<RootEntry>, requested: Seq<char>)
    ensures
        ({
            let roots = sort_roots(entries);
            let n = strip_slashes(requested);
            match first_match(roots, n, 0) {
                Some(k) => {
                    &&& forall|j: int|
                        0 <= j < roots.len() && alias_matches(#[trigger] roots[j], n)
                            ==> alias_len(roots[j]) <= alias_len(roots[k])
                    &&& spec_resolve(roots, requested) == if strip_slashes(
                        n.skip(roots[k].0.len() as int),
                    ).len() == 0 {
                        None
                    } else {
                        Some((roots[k].1, strip_slashes(n.skip(roots[k].0.len() as int))))
                    }
                },
                None => spec_resolve(roots, requested) is None,
            }
        }),
{
    let roots = sort_roots(entries);
    let n = strip_slashes(requested);
    lemma_sort_roots_longest_first(entries);
    lemma_first_match_decides(roots, n, 0);
    if let Some(k) = first_match(roots, n, 0) {
        assert forall|j: int| 0 <= j < roots.len() && alias_matches(#[trigger] roots[j], n) implies alias_len(
            roots[j],
        ) <= alias_len(roots[k]) by {
            if j < k {
                assert(!alias_matches(roots[j], n));
            } else if j > k {
                assert(alias_len(roots[k]) >= alias_len(roots[j]));
            }
        }
    }
}

} // verus!
