//! Paths are handled as strings with Unix semantics.

use vstd::prelude::*;
use vstd::string::*;

use crate::error::{DittoError, DittoErrorView};

verus! {

/// A path is absolute when it starts at the root directory.
pub open spec fn is_absolute(p: Seq<char>) -> bool {
    p.len() > 0 && p[0] == '/'
}

/// Index of the first `/` in `p`, or `p.len()` when there is none.
pub open spec fn first_slash(p: Seq<char>) -> int
    decreases p.len(),
{
    if p.len() == 0 {
        0
    } else if p[0] == '/' {
        0
    } else {
        1 + first_slash(p.drop_first())
    }
}

/// Separator-delimited pieces that carry no name: empty ones (from `//`,
/// leading or trailing separators) and `.`.
pub open spec fn is_skipped(seg: Seq<char>) -> bool {
    seg.len() == 0 || seg == seq!['.']
}

pub proof fn lemma_first_slash_bounds(p: Seq<char>)
    ensures
        0 <= first_slash(p) <= p.len(),
        first_slash(p) < p.len() ==> p[first_slash(p)] == '/',
        forall|i: int| 0 <= i < first_slash(p) ==> p[i] != '/',
    decreases p.len(),
{
    if p.len() > 0 && p[0] != '/' {
        lemma_first_slash_bounds(p.drop_first());
        assert forall|i: int| 0 <= i < first_slash(p) implies p[i] != '/' by {
            if i > 0 {
                assert(p[i] == p.drop_first()[i - 1]);
            }
        }
    }
}

/// `first_slash` is the first position that holds `/` (or the end).
pub proof fn lemma_first_slash_at(p: Seq<char>, j: int)
    requires
        0 <= j <= p.len(),
        j < p.len() ==> p[j] == '/',
        forall|i: int| 0 <= i < j ==> p[i] != '/',
    ensures
        first_slash(p) == j,
    decreases p.len(),
{
    if p.len() > 0 && j > 0 {
        assert(p[0] != '/');
        assert forall|i: int| 0 <= i < j - 1 implies p.drop_first()[i] != '/' by {
            assert(p.drop_first()[i] == p[i + 1]);
        }
        lemma_first_slash_at(p.drop_first(), j - 1);
    }
}

/// The named components of a path, in order: the pieces between separators,
/// without empty pieces and without `.`.
pub open spec fn components(p: Seq<char>) -> Seq<Seq<char>>
    decreases p.len(),
{
    if p.len() == 0 {
        seq![]
    } else {
        let k = first_slash(p);
        proof {
            lemma_first_slash_bounds(p);
        }
        let seg = p.take(k);
        let rest = if k < p.len() { p.skip(k + 1) } else { seq![] };
        if is_skipped(seg) {
            components(rest)
        } else {
            seq![seg] + components(rest)
        }
    }
}


/// The views of a sequence of strings.
pub open spec fn views(v: Seq<String>) -> Seq<Seq<char>> {
    v.map_values(|s: String| s@)
}

/// One step of `components`: the piece `p[i..j]` up to the next separator,
/// followed by the components of what comes after that separator.
pub proof fn lemma_components_step(p: Seq<char>, i: int, j: int)
    requires
        0 <= i < p.len(),
        i <= j <= p.len(),
        j < p.len() ==> p[j] == '/',
        forall|k: int| i <= k < j ==> p[k] != '/',
    ensures
        components(p.skip(i)) == (if is_skipped(p.subrange(i, j)) {
            seq![]
        } else {
            seq![p.subrange(i, j)]
        }) + components(if j < p.len() { p.skip(j + 1) } else { seq![] }),
{
    let q = p.skip(i);
    assert forall|k: int| 0 <= k < j - i implies q[k] != '/' by {
        assert(q[k] == p[i + k]);
    }
    if j < p.len() {
        assert(q[j - i] == p[j]);
    }
    lemma_first_slash_at(q, j - i);
    assert(q.take(j - i) =~= p.subrange(i, j));
    if j < p.len() {
        assert(q.skip(j - i + 1) =~= p.skip(j + 1));
    }
    if is_skipped(p.subrange(i, j)) {
        assert(components(q) =~= seq![] + components(if j < p.len() { p.skip(j + 1) } else { seq![] }));
    }
}

/// Splits a path into its named components (see `components`).
pub fn path_components(p: &str) -> (r: Vec<String>)
    ensures
        views(r@) == components(p@),
{
    let n = p.unicode_len();
    let mut out: Vec<String> = Vec::new();
    let mut i: usize = 0;
    assert(p@.skip(0) =~= p@);
    while i < n
        invariant
            n == p@.len(),
            i <= n,
            components(p@) == views(out@) + components(p@.skip(i as int)),
        decreases n - i,
    {
        let mut j: usize = i;
        while j < n && p.get_char(j) != '/'
            invariant
                n == p@.len(),
                i <= j <= n,
                forall|k: int| i <= k < j ==> p@[k] != '/',
            decreases n - j,
        {
            j = j + 1;
        }
        let seg = p.substring_char(i, j);
        proof {
            lemma_components_step(p@, i as int, j as int);
        }
        let skipped = seg.unicode_len() == 0 || (seg.unicode_len() == 1 && seg.get_char(0) == '.');
        proof {
            if seg@.len() == 1 && seg@[0] == '.' {
                assert(seg@ =~= seq!['.']);
            }
        }
        let ghost before = out@;
        if !skipped {
            out.push(String::from_str(seg));
            assert(views(out@) =~= views(before) + seq![seg@]);
        }
        if j < n {
            i = j + 1;
        } else {
            assert(p@.skip(n as int) =~= seq![]);
            i = n;
        }
        assert(components(p@) == views(out@) + components(p@.skip(i as int)));
    }
    assert(p@.skip(n as int) =~= seq![]);
    assert(views(out@) + seq![] =~= views(out@));
    out
}


/// `base` joined with `rest` as `Path::join` does on Unix: an absolute `rest`
/// replaces `base`; otherwise a separator is put between them unless `base`
/// is empty or already ends with one.
pub open spec fn spec_join(base: Seq<char>, rest: Seq<char>) -> Seq<char> {
    if is_absolute(rest) {
        rest
    } else if base.len() == 0 || base.last() == '/' {
        base + rest
    } else {
        base + seq!['/'] + rest
    }
}

/// Joins two paths (see `spec_join`).
pub fn join(base: &str, rest: &str) -> (r: String)
    ensures
        r@ == spec_join(base@, rest@),
{
    let rl = rest.unicode_len();
    if rl > 0 && rest.get_char(0) == '/' {
        return String::from_str(rest);
    }
    let bl = base.unicode_len();
    let mut s = String::from_str(base);
    if !(bl == 0 || base.get_char(bl - 1) == '/') {
        s.append("/");
        proof {
            reveal_strlit("/");
        }
    }
    s.append(rest);
    s
}

/// Components written out again, separated by single `/`.
pub open spec fn join_components(cs: Seq<Seq<char>>) -> Seq<char>
    decreases cs.len(),
{
    if cs.len() == 0 {
        seq![]
    } else if cs.len() == 1 {
        cs[0]
    } else {
        join_components(cs.drop_last()) + seq!['/'] + cs.last()
    }
}

/// Writes the strings `cs[from..]` separated by single `/`.
pub fn join_components_from(cs: &Vec<String>, from: usize) -> (r: String)
    requires
        from <= cs@.len(),
    ensures
        r@ == join_components(views(cs@).skip(from as int)),
{
    let n = cs.len();
    let mut acc = String::new();
    let mut i = from;
    assert(views(cs@).subrange(from as int, from as int) =~= seq![]);
    while i < n
        invariant
            n == cs@.len(),
            from <= i <= n,
            acc@ == join_components(views(cs@).subrange(from as int, i as int)),
        decreases n - i,
    {
        let ghost prev = views(cs@).subrange(from as int, i as int);
        let ghost next = views(cs@).subrange(from as int, i + 1);
        assert(next.drop_last() =~= prev);
        assert(next.last() == cs@[i as int]@);
        if i > from {
            acc.append("/");
            proof {
                reveal_strlit("/");
            }
        } else {
            assert(next =~= seq![cs@[i as int]@]);
        }
        acc.append(cs[i].as_str());
        i = i + 1;
    }
    assert(views(cs@).subrange(from as int, n as int) =~= views(cs@).skip(from as int));
    acc
}

/// `p` without its first `k` components, the pieces that carry no name
/// before them, and the separator that follows the last of them.
pub open spec fn after_components(p: Seq<char>, k: nat) -> Seq<char>
    decreases p.len(),
{
    if k == 0 || p.len() == 0 {
        p
    } else {
        let f = first_slash(p);
        proof {
            lemma_first_slash_bounds(p);
        }
        let rest = if f < p.len() { p.skip(f + 1) } else { seq![] };
        if is_skipped(p.take(f)) {
            after_components(rest, k)
        } else {
            after_components(rest, (k - 1) as nat)
        }
    }
}

/// `s` without its leading separators and `.` pieces.
pub open spec fn trim_start(s: Seq<char>) -> Seq<char>
    decreases s.len(),
{
    if s.len() > 0 && (s[0] == '/' || (s[0] == '.' && (s.len() == 1 || s[1] == '/'))) {
        trim_start(s.drop_first())
    } else {
        s
    }
}

/// `s` without its trailing separators and `.` pieces.
pub open spec fn trim_end(s: Seq<char>) -> Seq<char>
    decreases s.len(),
{
    if s.len() > 0 && (s.last() == '/' || (s.last() == '.' && (s.len() == 1 || s[s.len() - 2]
        == '/'))) {
        trim_end(s.drop_last())
    } else {
        s
    }
}

/// What remains of `path` after the leading components `base`, as
/// `Path::strip_prefix` computes it: `None` when `base` is not a
/// component-wise prefix of `path` (an absolute path never has a relative
/// prefix, and the other way round); otherwise the rest of `path` as it is
/// written, without the separators and `.` pieces at its ends.
pub open spec fn spec_relative_to(path: Seq<char>, base: Seq<char>) -> Option<Seq<char>> {
    let pc = components(path);
    let bc = components(base);
    if is_absolute(path) == is_absolute(base) && bc.len() <= pc.len() && pc.take(
        bc.len() as int,
    ) == bc {
        Some(trim_end(trim_start(after_components(path, bc.len()))))
    } else {
        None
    }
}

/// Taking away the first `k` components leaves the other components.
pub proof fn lemma_after_components(p: Seq<char>, k: nat)
    requires
        k <= components(p).len(),
    ensures
        components(after_components(p, k)) == components(p).skip(k as int),
    decreases p.len(),
{
    if k == 0 || p.len() == 0 {
        assert(components(p).skip(0) =~= components(p));
    } else {
        let f = first_slash(p);
        lemma_first_slash_bounds(p);
        let rest = if f < p.len() { p.skip(f + 1) } else { seq![] };
        if is_skipped(p.take(f)) {
            lemma_after_components(rest, k);
        } else {
            assert(components(p) == seq![p.take(f)] + components(rest));
            lemma_after_components(rest, (k - 1) as nat);
            assert(components(p).skip(k as int) =~= components(rest).skip(k - 1));
        }
    }
}

/// The components of a path that begins with a piece that carries no name
/// are those of what follows the piece's separator.
proof fn lemma_components_skip_first(s: Seq<char>, n: int)
    requires
        n == 1 || n == 2,
        n <= s.len() + 1,
        n == 1 ==> s.len() > 0 && s[0] == '/',
        n == 2 ==> s[0] == '.' && (s.len() == 1 || s[1] == '/'),
    ensures
        components(s) == components(if n <= s.len() { s.skip(n) } else { seq![] }),
{
    lemma_first_slash_at(s, n - 1);
    if n == 2 {
        assert(s.take(1) =~= seq!['.']);
    } else {
        assert(s.take(0) =~= Seq::<char>::empty());
    }
}

/// Trimming the start keeps the components, and leaves no separator first.
pub proof fn lemma_trim_start(s: Seq<char>)
    ensures
        components(trim_start(s)) == components(s),
        trim_start(s).len() == 0 || trim_start(s)[0] != '/',
    decreases s.len(),
{
    if s.len() > 0 && (s[0] == '/' || (s[0] == '.' && (s.len() == 1 || s[1] == '/'))) {
        lemma_trim_start(s.drop_first());
        if s[0] == '/' {
            lemma_components_skip_first(s, 1);
            assert(s.skip(1) =~= s.drop_first());
        } else {
            lemma_components_skip_first(s, 2);
            let d = s.drop_first();
            if s.len() == 1 {
                assert(components(d) =~= Seq::<Seq<char>>::empty());
                assert(components(Seq::<char>::empty()) =~= Seq::<Seq<char>>::empty());
            } else {
                lemma_components_skip_first(d, 1);
                assert(d.skip(1) =~= s.skip(2));
            }
        }
    }
}

/// Trimming the end keeps the components and the beginning.
pub proof fn lemma_trim_end(s: Seq<char>)
    ensures
        components(trim_end(s)) == components(s),
        trim_end(s) == s.take(trim_end(s).len() as int),
        trim_end(s).len() <= s.len(),
    decreases s.len(),
{
    if s.len() > 0 && (s.last() == '/' || (s.last() == '.' && (s.len() == 1 || s[s.len() - 2]
        == '/'))) {
        let d = s.drop_last();
        lemma_trim_end(d);
        assert(d.take(trim_end(d).len() as int) =~= s.take(trim_end(d).len() as int));
        assert(components(Seq::<char>::empty()) =~= Seq::<Seq<char>>::empty());
        if s.last() == '/' {
            assert(d + seq!['/'] + Seq::<char>::empty() =~= s);
            crate::laws::lemma_components_concat(d, Seq::<char>::empty());
            assert(components(d) + Seq::<Seq<char>>::empty() =~= components(d));
        } else if s.len() == 1 {
            assert(s =~= seq!['.']);
            lemma_components_skip_first(s, 2);
        } else {
            let a = s.subrange(0, s.len() - 2);
            assert(a + seq!['/'] + seq!['.'] =~= s);
            assert(a + seq!['/'] + Seq::<char>::empty() =~= d);
            crate::laws::lemma_components_concat(a, seq!['.']);
            crate::laws::lemma_components_concat(a, Seq::<char>::empty());
            lemma_components_skip_first(seq!['.'], 2);
            assert(components(a) + Seq::<Seq<char>>::empty() =~= components(a));
        }
    } else {
        assert(s.take(s.len() as int) =~= s);
    }
}

/// What remains relative to a base has the components after the base's,
/// and is relative.
pub proof fn lemma_relative_to(path: Seq<char>, base: Seq<char>)
    requires
        spec_relative_to(path, base) is Some,
    ensures
        components(spec_relative_to(path, base)->Some_0) == components(path).skip(
            components(base).len() as int,
        ),
        !is_absolute(spec_relative_to(path, base)->Some_0),
{
    let k = components(base).len();
    let a = after_components(path, k);
    lemma_after_components(path, k);
    lemma_trim_start(a);
    lemma_trim_end(trim_start(a));
    let t = trim_end(trim_start(a));
    if t.len() > 0 {
        assert(t[0] == trim_start(a)[0]);
    }
}

/// The position in `p` after its first `k` components and the separator
/// that follows the last of them (see `after_components`).
fn skip_components(p: &str, k: usize) -> (r: usize)
    ensures
        r <= p@.len(),
        p@.skip(r as int) == after_components(p@, k as nat),
{
    let n = p.unicode_len();
    let mut i: usize = 0;
    let mut left: usize = k;
    assert(p@.skip(0) =~= p@);
    while left > 0 && i < n
        invariant
            n == p@.len(),
            i <= n,
            after_components(p@, k as nat) == after_components(p@.skip(i as int), left as nat),
        decreases n - i,
    {
        let mut j: usize = i;
        while j < n && p.get_char(j) != '/'
            invariant
                n == p@.len(),
                i <= j <= n,
                forall|m: int| i <= m < j ==> p@[m] != '/',
            decreases n - j,
        {
            j = j + 1;
        }
        let ghost q = p@.skip(i as int);
        proof {
            assert forall|m: int| 0 <= m < j - i implies q[m] != '/' by {
                assert(q[m] == p@[i + m]);
            }
            if j < n {
                assert(q[j - i] == p@[j as int]);
            }
            lemma_first_slash_at(q, j - i);
            assert(q.take(j - i) =~= p@.subrange(i as int, j as int));
            if j < n {
                assert(q.skip(j - i + 1) =~= p@.skip(j + 1));
            }
        }
        let skipped = j == i || (j == i + 1 && p.get_char(i) == '.');
        proof {
            let seg = p@.subrange(i as int, j as int);
            if j == i + 1 && p@[i as int] == '.' {
                assert(seg =~= seq!['.']);
            }
            if is_skipped(seg) && j != i {
                assert(seg.len() == 1 && seg[0] == '.');
                assert(p@[i as int] == seg[0]);
            }
        }
        if !skipped {
            left = left - 1;
        }
        if j < n {
            i = j + 1;
        } else {
            assert(p@.skip(n as int) =~= seq![]);
            i = n;
        }
    }
    if i == n {
        assert(p@.skip(n as int) =~= Seq::<char>::empty());
    }
    i
}

/// `path` relative to `base` (see `spec_relative_to`).
pub fn relative_to(path: &str, base: &str) -> (r: Option<String>)
    ensures
        match r {
            Some(s) => spec_relative_to(path@, base@) == Some(s@),
            None => spec_relative_to(path@, base@) is None,
        },
{
    let pabs = path.unicode_len() > 0 && path.get_char(0) == '/';
    let babs = base.unicode_len() > 0 && base.get_char(0) == '/';
    if pabs != babs {
        return None;
    }
    let pc = path_components(path);
    let bc = path_components(base);
    if bc.len() > pc.len() {
        return None;
    }
    let mut i: usize = 0;
    while i < bc.len()
        invariant
            bc@.len() <= pc@.len(),
            i <= bc@.len(),
            views(pc@) == components(path@),
            views(bc@) == components(base@),
            is_absolute(path@) == is_absolute(base@),
            forall|k: int| 0 <= k < i ==> pc@[k]@ == bc@[k]@,
        decreases bc@.len() - i,
    {
        if !(pc[i] == bc[i]) {
            proof {
                let pv = views(pc@);
                let bv = views(bc@);
                assert(pv.take(bv.len() as int)[i as int] == pv[i as int]);
                assert(pv.take(bv.len() as int) != bv);
            }
            return None;
        }
        i = i + 1;
    }
    assert(views(pc@).take(bc@.len() as int) =~= views(bc@));
    let n = path.unicode_len();
    let mut s = skip_components(path, bc.len());
    assert(trim_start(after_components(path@, bc@.len() as nat)) == trim_start(path@.skip(s as int)));
    while s < n && (path.get_char(s) == '/' || (path.get_char(s) == '.' && (s + 1 == n
        || path.get_char(s + 1) == '/')))
        invariant
            n == path@.len(),
            s <= n,
            trim_start(after_components(path@, bc@.len() as nat)) == trim_start(
                path@.skip(s as int),
            ),
        decreases n - s,
    {
        assert(path@.skip(s as int).drop_first() =~= path@.skip(s + 1));
        s = s + 1;
    }
    let mut e = n;
    assert(path@.skip(s as int) =~= path@.subrange(s as int, n as int));
    while e > s && (path.get_char(e - 1) == '/' || (path.get_char(e - 1) == '.' && (e - 1 == s
        || path.get_char(e - 2) == '/')))
        invariant
            n == path@.len(),
            s <= e <= n,
            trim_end(path@.subrange(s as int, n as int)) == trim_end(
                path@.subrange(s as int, e as int),
            ),
        decreases e - s,
    {
        assert(path@.subrange(s as int, e as int).drop_last() =~= path@.subrange(
            s as int,
            e - 1,
        ));
        e = e - 1;
    }
    Some(String::from_str(path.substring_char(s, e)))
}

/// A result carrying a string, taken by views.
pub open spec fn result_view(r: Result<String, DittoError>) -> Result<Seq<char>, DittoErrorView> {
    match r {
        Ok(s) => Ok(s@),
        Err(e) => Err(e@),
    }
}

/// An optional string, taken by its view.
pub open spec fn option_view(o: Option<String>) -> Option<Seq<char>> {
    match o {
        Some(s) => Some(s@),
        None => None,
    }
}

/// The current user's home directory as `dirs::home_dir` finds it (on Unix:
/// `$HOME` when set and not empty, else the password database), converted to
/// a string. Nothing is stated of the result: it depends on the environment.
#[verifier::external_body]
pub(crate) fn system_home_dir() -> (r: Option<String>) {
    match dirs::home_dir() {
        Some(p) => Some(p.to_string_lossy().into_owned()),
        None => None,
    }
}

/// The home directory when it was found, else `HomeNotSet`.
pub open spec fn spec_home(found: Option<Seq<char>>) -> Result<Seq<char>, DittoErrorView> {
    match found {
        Some(h) => Ok(h),
        None => Err(DittoErrorView::HomeNotSet),
    }
}

/// The home directory from what the system reported (see `spec_home`).
pub fn home_dir_from(found: &Option<String>) -> (r: Result<String, DittoError>)
    ensures
        result_view(r) == spec_home(option_view(*found)),
{
    match found {
        Some(h) => Ok(h.clone()),
        None => Err(DittoError::HomeNotSet),
    }
}

/// The current user's home directory; `HomeNotSet` when the system has none.
pub fn home_dir() -> (r: Result<String, DittoError>)
    ensures
        r is Err ==> r->Err_0@ == DittoErrorView::HomeNotSet,
{
    let found = system_home_dir();
    home_dir_from(&found)
}

/// `path` relative to the home directory `home`; `NotInHome` with the path
/// when it is not inside it, `HomeNotSet` when there is no home directory.
pub open spec fn spec_relative_to_home(path: Seq<char>, home: Option<Seq<char>>) -> Result<
    Seq<char>,
    DittoErrorView,
> {
    match home {
        None => Err(DittoErrorView::HomeNotSet),
        Some(h) => match spec_relative_to(path, h) {
            Some(r) => Ok(r),
            None => Err(DittoErrorView::NotInHome(path)),
        },
    }
}

/// `path` relative to the given home directory (see `spec_relative_to_home`).
pub fn relative_to_home_in(path: &str, home: &Option<String>) -> (r: Result<String, DittoError>)
    ensures
        result_view(r) == spec_relative_to_home(path@, option_view(*home)),
{
    match home {
        None => Err(DittoError::HomeNotSet),
        Some(h) => match relative_to(path, h.as_str()) {
            Some(rel) => Ok(rel),
            None => Err(DittoError::NotInHome(String::from_str(path))),
        },
    }
}

/// `path` relative to the current user's home directory.
pub fn relative_to_home(path: &str) -> (r: Result<String, DittoError>)
    ensures
        exists|home: Option<Seq<char>>| result_view(r) == spec_relative_to_home(path@, home),
{
    let home = system_home_dir();
    relative_to_home_in(path, &home)
}

/// A path that begins with `~` is cut after its second character; so that
/// the cut falls on a character boundary, that character must be ASCII.
pub open spec fn tilde_cut_ok(p: Seq<char>) -> bool {
    p.len() > 0 && p[0] == '~' ==> p.len() >= 2 && (p[1] as u32) < 128
}

/// A path that begins with `~` stands for the home directory joined with
/// what follows its first two characters; any other path stays as it is.
pub open spec fn spec_expand_tilde(p: Seq<char>, home: Option<Seq<char>>) -> Result<
    Seq<char>,
    DittoErrorView,
> {
    if p.len() > 0 && p[0] == '~' {
        match home {
            None => Err(DittoErrorView::HomeNotSet),
            Some(h) => Ok(spec_join(h, p.skip(2))),
        }
    } else {
        Ok(p)
    }
}

/// Expands a leading `~` with the given home directory (see `spec_expand_tilde`).
pub fn expand_tilde_in(path: &str, home: &Option<String>) -> (r: Result<String, DittoError>)
    requires
        tilde_cut_ok(path@),
    ensures
        result_view(r) == spec_expand_tilde(path@, option_view(*home)),
{
    let n = path.unicode_len();
    if n > 0 && path.get_char(0) == '~' {
        match home {
            None => Err(DittoError::HomeNotSet),
            Some(h) => {
                let rest = path.substring_char(2, n);
                Ok(join(h.as_str(), rest))
            },
        }
    } else {
        Ok(String::from_str(path))
    }
}

/// Expands a leading `~` with the current user's home directory, which is
/// looked up only for such a path.
pub fn expand_tilde(path: &str) -> (r: Result<String, DittoError>)
    requires
        tilde_cut_ok(path@),
    ensures
        exists|home: Option<Seq<char>>| result_view(r) == spec_expand_tilde(path@, home),
        !(path@.len() > 0 && path@[0] == '~') ==> result_view(r) == Ok::<
            Seq<char>,
            DittoErrorView,
        >(path@),
{
    let n = path.unicode_len();
    if n > 0 && path.get_char(0) == '~' {
        let home = system_home_dir();
        expand_tilde_in(path, &home)
    } else {
        let copy = String::from_str(path);
        let ghost none: Option<Seq<char>> = None;
        assert(result_view(Ok(copy)) == spec_expand_tilde(path@, none));
        Ok(copy)
    }
}

/// The last component, unless there is none or it is `..`.
pub open spec fn spec_file_name(p: Seq<char>) -> Option<Seq<char>> {
    let c = components(p);
    if c.len() == 0 || c.last() == seq!['.', '.'] {
        None
    } else {
        Some(c.last())
    }
}

/// The file name of a path (see `spec_file_name`).
pub fn file_name(p: &str) -> (r: Option<String>)
    ensures
        option_view(r) == spec_file_name(p@),
{
    let mut c = path_components(p);
    let n = c.len();
    if n == 0 {
        return None;
    }
    let last = c.pop().unwrap();
    assert(last@ == components(p@).last());
    if last.unicode_len() == 2 && last.get_char(0) == '.' && last.get_char(1) == '.' {
        assert(last@ =~= seq!['.', '.']);
        None
    } else {
        assert(last@ != seq!['.', '.']);
        Some(last)
    }
}

/// The path without its last component: `None` for a path without
/// components; the root for an absolute path of one component.
pub open spec fn spec_parent(p: Seq<char>) -> Option<Seq<char>> {
    let c = components(p);
    if c.len() == 0 {
        None
    } else if is_absolute(p) {
        Some(seq!['/'] + join_components(c.drop_last()))
    } else {
        Some(join_components(c.drop_last()))
    }
}

/// The parent directory of a path (see `spec_parent`).
pub fn parent(p: &str) -> (r: Option<String>)
    ensures
        option_view(r) == spec_parent(p@),
{
    let mut c = path_components(p);
    let n = c.len();
    if n == 0 {
        return None;
    }
    let _ = c.pop();
    assert(views(c@) =~= components(p@).drop_last());
    assert(views(c@).skip(0) =~= views(c@));
    let body = join_components_from(&c, 0);
    if p.unicode_len() > 0 && p.get_char(0) == '/' {
        let mut s = String::from_str("/");
        proof {
            reveal_strlit("/");
        }
        s.append(body.as_str());
        Some(s)
    } else {
        Some(body)
    }
}


/// Whether two strings are equal.
pub fn str_eq(a: &str, b: &str) -> (r: bool)
    ensures
        r == (a@ == b@),
{
    let n = a.unicode_len();
    if n != b.unicode_len() {
        return false;
    }
    let mut i: usize = 0;
    while i < n
        invariant
            n == a@.len(),
            n == b@.len(),
            i <= n,
            forall|k: int| 0 <= k < i ==> a@[k] == b@[k],
        decreases n - i,
    {
        if a.get_char(i) != b.get_char(i) {
            return false;
        }
        i = i + 1;
    }
    assert(a@ =~= b@);
    true
}

/// The operating systems ditto supports.
#[derive(Debug)]
pub enum Platform {
    MacOs,
    Linux,
}

impl Platform {
    /// The name of the platform, as `std::env::consts::OS` spells it.
    pub open spec fn spec_name(self) -> Seq<char> {
        match self {
            Platform::MacOs => "macos"@,
            Platform::Linux => "linux"@,
        }
    }

    /// The platform of an operating system name, if ditto supports it.
    pub open spec fn spec_from_os(os: Seq<char>) -> Option<Platform> {
        if os == "macos"@ {
            Some(Platform::MacOs)
        } else if os == "linux"@ {
            Some(Platform::Linux)
        } else {
            None
        }
    }

    /// The name of the platform (see `spec_name`).
    pub fn name(&self) -> (r: String)
        ensures
            r@ == self.spec_name(),
    {
        match self {
            Platform::MacOs => String::from_str("macos"),
            Platform::Linux => String::from_str("linux"),
        }
    }

    /// The platform named `os` (see `spec_from_os`).
    pub fn from_os(os: &str) -> (r: Option<Platform>)
        ensures
            r == Self::spec_from_os(os@),
    {
        if str_eq(os, "macos") {
            Some(Platform::MacOs)
        } else if str_eq(os, "linux") {
            Some(Platform::Linux)
        } else {
            None
        }
    }
}

/// The platform ditto runs on, given the operating system's name as
/// `std::env::consts::OS` spells it; only the supported systems are
/// admitted (ditto stops on any other).
pub fn current_platform(os: &str) -> (r: Platform)
    requires
        Platform::spec_from_os(os@) is Some,
    ensures
        Platform::spec_from_os(os@) == Some(r),
{
    match Platform::from_os(os) {
        Some(p) => p,
        None => Platform::Linux,
    }
}

} // verus!
