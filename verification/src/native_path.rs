//! File system paths as the components that they name.

use vstd::prelude::*;
use vstd::slice::{slice_subrange, slice_to_vec};

verus! {

/// A path: whether it starts at the root, and the names on it.
#[derive(Debug, Clone, PartialEq, Eq)]
pub struct NativePath {
    pub absolute: bool,
    pub parts: Vec<Vec<u8>>,
}

/// What a `NativePath` says.
#[verifier::ext_equal]
pub struct PathView {
    pub absolute: bool,
    pub parts: Seq<Seq<u8>>,
}

pub open spec fn parts_view(parts: Seq<Vec<u8>>) -> Seq<Seq<u8>> {
    Seq::new(parts.len(), |i: int| parts[i]@)
}

impl View for NativePath {
    type V = PathView;

    open spec fn view(&self) -> PathView {
        PathView { absolute: self.absolute, parts: parts_view(self.parts@) }
    }
}

pub const SLASH: u8 = 47;

pub const PERIOD: u8 = 46;

/// The names that end in `s`, and the name that `s` ends with.
pub open spec fn name_state(s: Seq<u8>) -> (Seq<Seq<u8>>, Seq<u8>)
    decreases s.len(),
{
    if s.len() == 0 {
        (Seq::empty(), Seq::empty())
    } else {
        let (done, name) = name_state(s.drop_last());
        if s.last() != SLASH {
            (done, name.push(s.last()))
        } else {
            (with_name(done, name, starts_at_root(s)), Seq::empty())
        }
    }
}

pub open spec fn starts_at_root(s: Seq<u8>) -> bool {
    s.len() > 0 && s.first() == SLASH
}

/// `done` with `name` behind it. Empty names, and names for the same directory
/// anywhere but at the start of a relative path, say nothing.
pub open spec fn with_name(done: Seq<Seq<u8>>, name: Seq<u8>, absolute: bool) -> Seq<Seq<u8>> {
    if name.len() == 0 || (name == seq![PERIOD] && (absolute || done.len() > 0)) {
        done
    } else {
        done.push(name)
    }
}

/// The path that `bytes` write.
pub open spec fn path_of(bytes: Seq<u8>) -> PathView {
    let (done, name) = name_state(bytes);
    PathView {
        absolute: starts_at_root(bytes),
        parts: with_name(done, name, starts_at_root(bytes)),
    }
}

fn push_name(done: &mut Vec<Vec<u8>>, name: Vec<u8>, absolute: bool)
    ensures
        parts_view(final(done)@) == with_name(parts_view(old(done)@), name@, absolute),
{
    if name.len() == 0 {
        return;
    }
    if name.len() == 1 && name[0] == PERIOD {
        assert(name@ =~= seq![PERIOD]);
        if absolute || done.len() > 0 {
            return;
        }
    }
    done.push(name);
    assert(parts_view(done@) =~= parts_view(old(done)@).push(name@));
}

impl NativePath {
    /// `path_of`, computed.
    pub fn parse(bytes: &[u8]) -> (out: Self)
        ensures
            out@ == path_of(bytes@),
    {
        let absolute: bool = bytes.len() > 0 && bytes[0] == SLASH;
        let mut done: Vec<Vec<u8>> = Vec::new();
        let mut name: Vec<u8> = Vec::new();
        let mut i: usize = 0;
        assert(bytes@.take(0) =~= Seq::<u8>::empty());
        assert(parts_view(done@) =~= Seq::<Seq<u8>>::empty());
        assert(name@ =~= Seq::<u8>::empty());
        while i < bytes.len()
            invariant
                i <= bytes@.len(),
                absolute == starts_at_root(bytes@),
                (parts_view(done@), name@) == name_state(bytes@.take(i as int)),
            decreases bytes@.len() - i,
        {
            assert(bytes@.take(i + 1).drop_last() =~= bytes@.take(i as int));
            assert(starts_at_root(bytes@.take(i + 1)) == absolute);
            if bytes[i] != SLASH {
                name.push(bytes[i]);
            } else {
                push_name(&mut done, name, absolute);
                name = Vec::new();
                assert(name@ =~= Seq::<u8>::empty());
            }
            i += 1;
        }
        assert(bytes@.take(bytes@.len() as int) =~= bytes@);
        push_name(&mut done, name, absolute);
        NativePath { absolute, parts: done }
    }

    /// Whether two paths are the same.
    pub fn same(&self, other: &NativePath) -> (r: bool)
        ensures
            r == (self@ == other@),
    {
        assert(self@.parts.len() == self.parts@.len() && other@.parts.len() == other.parts@.len());
        if self.absolute != other.absolute || self.parts.len() != other.parts.len() {
            return false;
        }
        let mut i: usize = 0;
        while i < self.parts.len()
            invariant
                self.parts@.len() == other.parts@.len(),
                i <= self.parts@.len(),
                forall|j: int| 0 <= j < i ==> self.parts@[j]@ == other.parts@[j]@,
            decreases self.parts@.len() - i,
        {
            if !same_bytes(self.parts[i].as_slice(), other.parts[i].as_slice()) {
                assert(self@.parts[i as int] != other@.parts[i as int]);
                return false;
            }
            i += 1;
        }
        assert(self@.parts =~= other@.parts);
        true
    }

    /// A copy.
    pub fn duplicate(&self) -> (out: Self)
        ensures
            out@ == self@,
    {
        self.prefix(self.parts.len())
    }

    /// The path of the first `n` names.
    fn prefix(&self, n: usize) -> (out: Self)
        requires
            n <= self.parts@.len(),
        ensures
            out@ == (PathView { absolute: self@.absolute, parts: self@.parts.take(n as int) }),
    {
        let mut parts: Vec<Vec<u8>> = Vec::new();
        let mut i: usize = 0;
        while i < n
            invariant
                i <= n <= self.parts@.len(),
                parts@.len() == i,
                forall|j: int| 0 <= j < i ==> parts@[j]@ == self.parts@[j]@,
            decreases n - i,
        {
            parts.push(slice_to_vec(self.parts[i].as_slice()));
            i += 1;
        }
        let out: NativePath = NativePath { absolute: self.absolute, parts };
        assert(out@.parts =~= self@.parts.take(n as int));
        out
    }
}

pub fn same_bytes(a: &[u8], b: &[u8]) -> (r: bool)
    ensures
        r == (a@ == b@),
{
    if a.len() != b.len() {
        return false;
    }
    let mut i: usize = 0;
    while i < a.len()
        invariant
            a@.len() == b@.len(),
            i <= a@.len(),
            forall|j: int| 0 <= j < i ==> a@[j] == b@[j],
        decreases a@.len() - i,
    {
        if a[i] != b[i] {
            return false;
        }
        i += 1;
    }
    assert(a@ =~= b@);
    true
}

// ---------------------------------------------------------------------------
// Application bundles
// ---------------------------------------------------------------------------

/// `.app`
pub open spec fn app_suffix() -> Seq<u8> {
    seq![46u8, 97, 112, 112]
}

/// `Contents`
pub open spec fn contents_name() -> Seq<u8> {
    seq![67u8, 111, 110, 116, 101, 110, 116, 115]
}

/// `MacOS`
pub open spec fn macos_name() -> Seq<u8> {
    seq![77u8, 97, 99, 79, 83]
}

/// The name of an application bundle without its extension.
pub open spec fn bundle_stem(name: Seq<u8>) -> Option<Seq<u8>> {
    if name.len() > 4 && name.skip(name.len() - 4) == app_suffix() {
        Some(name.take(name.len() - 4))
    } else {
        None
    }
}

/// How many names lead to the innermost bundle among the first `n`; 0 where
/// there is none.
pub open spec fn bundle_depth(parts: Seq<Seq<u8>>, n: int) -> int
    decreases n,
{
    if n <= 0 {
        0
    } else if bundle_stem(parts[n - 1]) is Some {
        n
    } else {
        bundle_depth(parts, n - 1)
    }
}

/// The innermost application bundle that a path lies in.
pub open spec fn containing_bundle(path: PathView) -> Option<PathView> {
    let n = bundle_depth(path.parts, path.parts.len() as int);
    if n > 0 {
        Some(PathView { parts: path.parts.take(n), ..path })
    } else {
        None
    }
}

/// The bundle whose main executable is exactly `path`.
pub open spec fn bundle_of_main(path: PathView) -> Option<PathView> {
    match containing_bundle(path) {
        Some(bundle) => if path.parts == bundle.parts + seq![
            contents_name(),
            macos_name(),
            bundle_stem(bundle.parts.last())->0,
        ] {
            Some(bundle)
        } else {
            None
        },
        None => None,
    }
}

fn stem_of_bundle(name: &[u8]) -> (out: Option<&[u8]>)
    ensures
        match out {
            Some(stem) => bundle_stem(name@) == Some(stem@),
            None => bundle_stem(name@) is None,
        },
{
    let n: usize = name.len();
    if n <= 4 {
        return None;
    }
    let tail: &[u8] = slice_subrange(name, n - 4, n);
    assert(tail@ =~= name@.skip(name@.len() - 4));
    if tail[0] == 46 && tail[1] == 97 && tail[2] == 112 && tail[3] == 112 {
        assert(tail@ =~= app_suffix());
        let stem: &[u8] = slice_subrange(name, 0, n - 4);
        assert(stem@ =~= name@.take(name@.len() - 4));
        Some(stem)
    } else {
        assert(tail@ != app_suffix());
        None
    }
}

/// `bundle_depth` of all names.
fn bundle_depth_of(path: &NativePath) -> (n: usize)
    ensures
        n == bundle_depth(path@.parts, path@.parts.len() as int),
        n <= path.parts@.len(),
        n > 0 ==> bundle_stem(path.parts@[n - 1]@) is Some,
{
    let mut n: usize = path.parts.len();
    while n > 0
        invariant
            n <= path.parts@.len(),
            bundle_depth(path@.parts, path@.parts.len() as int) == bundle_depth(
                path@.parts,
                n as int,
            ),
        decreases n,
    {
        if stem_of_bundle(path.parts[n - 1].as_slice()).is_some() {
            return n;
        }
        n -= 1;
    }
    0
}

/// `containing_bundle`, computed.
pub fn containing_app_bundle(path: &NativePath) -> (out: Option<NativePath>)
    ensures
        match out {
            Some(bundle) => containing_bundle(path@) == Some(bundle@),
            None => containing_bundle(path@) is None,
        },
{
    let n: usize = bundle_depth_of(path);
    if n == 0 {
        None
    } else {
        Some(path.prefix(n))
    }
}

fn is_contents(name: &[u8]) -> (r: bool)
    ensures
        r == (name@ == contents_name()),
{
    let want: [u8; 8] = [67, 111, 110, 116, 101, 110, 116, 115];
    assert(want@ =~= contents_name());
    same_bytes(name, &want)
}

fn is_macos(name: &[u8]) -> (r: bool)
    ensures
        r == (name@ == macos_name()),
{
    let want: [u8; 5] = [77, 97, 99, 79, 83];
    assert(want@ =~= macos_name());
    same_bytes(name, &want)
}

/// `bundle_of_main`, computed.
pub fn containing_app_bundle_for_direct_main_executable(path: &NativePath) -> (out: Option<
    NativePath,
>)
    ensures
        match out {
            Some(bundle) => bundle_of_main(path@) == Some(bundle@),
            None => bundle_of_main(path@) is None,
        },
{
    let n: usize = bundle_depth_of(path);
    if n == 0 {
        return None;
    }
    let ghost bundle = containing_bundle(path@)->0;
    let ghost want = bundle.parts + seq![
        contents_name(),
        macos_name(),
        bundle_stem(bundle.parts.last())->0,
    ];
    assert(bundle.parts.last() == path.parts@[n - 1]@);
    if path.parts.len() - n != 3 {
        assert(path@.parts.len() != want.len());
        return None;
    }
    let stem: &[u8] = match stem_of_bundle(path.parts[n - 1].as_slice()) {
        Some(stem) => stem,
        None => {
            return None;
        },
    };
    let direct: bool = is_contents(path.parts[n].as_slice()) && is_macos(
        path.parts[n + 1].as_slice(),
    ) && same_bytes(path.parts[n + 2].as_slice(), stem);
    proof {
        assert(want[n as int] == contents_name());
        assert(want[n + 1] == macos_name());
        assert(want[n + 2] == stem@);
        assert(path@.parts[n as int] == path.parts@[n as int]@);
        assert(path@.parts[n + 1] == path.parts@[n + 1]@);
        assert(path@.parts[n + 2] == path.parts@[n + 2]@);
        if direct {
            assert(path@.parts =~= want);
        }
    }
    if direct {
        Some(path.prefix(n))
    } else {
        None
    }
}

/// The path bytes up to the first zero byte.
pub open spec fn until_zero(buffer: Seq<u8>) -> Seq<u8>
    decreases buffer.len(),
{
    if buffer.len() == 0 || buffer.first() == 0 {
        Seq::empty()
    } else {
        seq![buffer.first()] + until_zero(buffer.drop_first())
    }
}

/// The path in a buffer that the system filled: its bytes up to the first zero
/// byte, if there are any.
pub fn proc_pidpath_buffer_to_path(buffer: &[u8]) -> (out: Option<Vec<u8>>)
    ensures
        match out {
            Some(path) => path@ == until_zero(buffer@) && path@.len() > 0,
            None => until_zero(buffer@).len() == 0,
        },
{
    let mut path: Vec<u8> = Vec::new();
    let mut i: usize = 0;
    assert(buffer@.skip(0) =~= buffer@);
    assert(path@ + until_zero(buffer@) =~= until_zero(buffer@));
    while i < buffer.len() && buffer[i] != 0
        invariant
            i <= buffer@.len(),
            until_zero(buffer@) == path@ + until_zero(buffer@.skip(i as int)),
        decreases buffer@.len() - i,
    {
        let ghost before = path@;
        assert(buffer@.skip(i as int).drop_first() =~= buffer@.skip(i + 1));
        path.push(buffer[i]);
        assert(before + (seq![buffer@[i as int]] + until_zero(buffer@.skip(i + 1))) =~= path@
            + until_zero(buffer@.skip(i + 1)));
        i += 1;
    }
    assert(path@ + Seq::<u8>::empty() =~= path@);
    if path.len() == 0 {
        None
    } else {
        Some(path)
    }
}

// ---------------------------------------------------------------------------
// What paths come to
// ---------------------------------------------------------------------------

/// Adding a name without a slash.
proof fn lemma_name_added(s: Seq<u8>, name: Seq<u8>)
    requires
        !name.contains(47),
        name_state(s).1.len() == 0,
    ensures
        name_state(s + name) == (name_state(s).0, name),
    decreases name.len(),
{
    if name.len() == 0 {
        assert(s + name =~= s);
        assert(name_state(s).1 =~= name);
    } else {
        let front = name.drop_last();
        assert((s + name).drop_last() =~= s + front);
        assert(name.contains(name[name.len() - 1]));
        assert forall|b: u8| front.contains(b) implies name.contains(b) by {
            let i = choose|i: int| 0 <= i < front.len() && front[i] == b;
            assert(name[i] == b);
        }
        lemma_name_added(s, front);
        assert(front.push(name.last()) =~= name);
    }
}

/// A name that follows a path, behind a slash, is one name more on it. An empty name adds
/// nothing, however many slashes there are, and neither does a single period; where the
/// path starts does not change.
pub proof fn law_a_name_is_added_behind_a_slash(s: Seq<u8>, name: Seq<u8>)
    requires
        s.len() > 0,
        !name.contains(47),
    ensures
        ({
            let longer = path_of(s + seq![47u8] + name);
            let path = path_of(s);
            &&& longer.absolute == path.absolute
            &&& longer.parts == if name.len() == 0 || (name == seq![46u8] && (path.absolute
                || path.parts.len() > 0)) {
                path.parts
            } else {
                path.parts.push(name)
            }
        }),
{
    let slashed = s + seq![47u8];
    assert(slashed.drop_last() =~= s);
    assert(slashed.last() == 47);
    assert(slashed.first() == s.first());
    lemma_name_added(slashed, name);
    assert((slashed + name).first() == s.first());
}

/// A path begins at the root exactly where it begins with a slash; a name alone is a path
/// of one name.
pub proof fn law_a_path_begins_with_a_name_or_a_slash(name: Seq<u8>)
    requires
        !name.contains(47),
    ensures
        path_of(name) == (PathView {
            absolute: false,
            parts: if name.len() == 0 {
                Seq::empty()
            } else {
                seq![name]
            },
        }),
        path_of(seq![47u8] + name) == (PathView {
            absolute: true,
            parts: if name.len() == 0 || name == seq![46u8] {
                Seq::empty()
            } else {
                seq![name]
            },
        }),
{
    let empty = Seq::<u8>::empty();
    lemma_name_added(empty, name);
    assert(empty + name =~= name);
    if name.len() > 0 {
        assert(name.contains(name[0]));
        assert(Seq::<Seq<u8>>::empty().push(name) =~= seq![name]);
    }
    let root = seq![47u8];
    assert(root.drop_last() =~= empty);
    assert(name_state(root) == (Seq::<Seq<u8>>::empty(), empty));
    lemma_name_added(root, name);
    assert((root + name).first() == 47);
}

/// The name of an application bundle: anything, and then `.app`.
pub open spec fn bundle_name(name: Seq<u8>, stem: Seq<u8>) -> bool {
    stem.len() > 0 && name == stem + seq![46u8, 97, 112, 112]
}

proof fn lemma_bundle_stem(name: Seq<u8>, stem: Seq<u8>)
    ensures
        bundle_stem(name) == Some(stem) <==> bundle_name(name, stem),
{
    if bundle_name(name, stem) {
        assert(name.skip(name.len() - 4) =~= app_suffix());
        assert(name.take(name.len() - 4) =~= stem);
    }
    if bundle_stem(name) == Some(stem) {
        assert(name =~= name.take(name.len() - 4) + name.skip(name.len() - 4));
    }
}

proof fn lemma_bundle_depth(parts: Seq<Seq<u8>>, n: int, k: int)
    requires
        0 <= k <= n <= parts.len(),
        k > 0 ==> bundle_stem(parts[k - 1]) is Some,
        forall|i: int| k <= i < n ==> bundle_stem(#[trigger] parts[i]) is None,
    ensures
        bundle_depth(parts, n) == k,
    decreases n,
{
    if n > k {
        lemma_bundle_depth(parts, n - 1, k);
    }
}

/// A path stands in the innermost bundle on it: the last name that is one of a bundle
/// ends it. A path without such a name stands in none.
pub proof fn law_a_path_stands_in_its_innermost_bundle(
    before: Seq<Seq<u8>>,
    name: Seq<u8>,
    stem: Seq<u8>,
    after: Seq<Seq<u8>>,
    absolute: bool,
)
    requires
        bundle_name(name, stem),
        forall|i: int, other: Seq<u8>|
            0 <= i < after.len() ==> !(#[trigger] bundle_name(after[i], other)),
    ensures
        containing_bundle(PathView { absolute, parts: before + seq![name] + after }) == Some(
            PathView { absolute, parts: before + seq![name] },
        ),
        containing_bundle(PathView { absolute, parts: after }) is None,
{
    let parts = before + seq![name] + after;
    let k = before.len() as int + 1;
    lemma_bundle_stem(name, stem);
    assert(parts[k - 1] == name);
    assert forall|i: int| 0 <= i < after.len() implies bundle_stem(#[trigger] after[i]) is None by {
        if bundle_stem(after[i]) is Some {
            lemma_bundle_stem(after[i], bundle_stem(after[i])->0);
            assert(!bundle_name(after[i], bundle_stem(after[i])->0));
        }
    }
    assert forall|i: int| k <= i < parts.len() implies bundle_stem(#[trigger] parts[i]) is None by {
        assert(parts[i] == after[i - k]);
    }
    lemma_bundle_depth(parts, parts.len() as int, k);
    assert(parts.take(k) =~= before + seq![name]);
    lemma_bundle_depth(after, after.len() as int, 0);
}

/// The main executable of a bundle is `Contents/MacOS/` and the name of the bundle without
/// its ending.
pub proof fn law_the_main_executable_of_a_bundle(
    before: Seq<Seq<u8>>,
    name: Seq<u8>,
    stem: Seq<u8>,
    absolute: bool,
)
    requires
        bundle_name(name, stem),
        forall|other: Seq<u8>| !bundle_name(stem, other),
    ensures
        bundle_of_main(
            PathView {
                absolute,
                parts: before + seq![
                    name,
                    seq![67u8, 111, 110, 116, 101, 110, 116, 115],
                    seq![77u8, 97, 99, 79, 83],
                    stem,
                ],
            },
        ) == Some(PathView { absolute, parts: before + seq![name] }),
{
    let after = seq![
        seq![67u8, 111, 110, 116, 101, 110, 116, 115],
        seq![77u8, 97, 99, 79, 83],
        stem,
    ];
    assert forall|i: int, other: Seq<u8>| 0 <= i < after.len() implies !(#[trigger] bundle_name(
        after[i],
        other,
    )) by {
        if i < 2 && bundle_name(after[i], other) {
            assert(after[i].last() == 112);
        }
    }
    law_a_path_stands_in_its_innermost_bundle(before, name, stem, after, absolute);
    lemma_bundle_stem(name, stem);
    let parts = before + seq![
        name,
        seq![67u8, 111, 110, 116, 101, 110, 116, 115],
        seq![77u8, 97, 99, 79, 83],
        stem,
    ];
    assert(parts =~= before + seq![name] + after);
    assert((before + seq![name]).last() == name);
    assert(after =~= seq![contents_name(), macos_name(), stem]);
}

/// Nothing else is the main executable of a bundle.
pub proof fn law_nothing_else_is_a_main_executable(path: PathView, bundle: PathView)
    requires
        bundle_of_main(path) == Some(bundle),
    ensures
        bundle.absolute == path.absolute,
        path.parts.len() == bundle.parts.len() + 3,
        bundle.parts.len() > 0,
        bundle.parts == path.parts.take(bundle.parts.len() as int),
        path.parts[path.parts.len() - 3] == seq![67u8, 111, 110, 116, 101, 110, 116, 115],
        path.parts[path.parts.len() - 2] == seq![77u8, 97, 99, 79, 83],
        bundle_name(bundle.parts.last(), path.parts.last()),
{
    let n = bundle_depth(path.parts, path.parts.len() as int);
    lemma_depth_is_a_bundle(path.parts, path.parts.len() as int);
    assert(bundle.parts.last() == path.parts[n - 1]);
    lemma_bundle_stem(bundle.parts.last(), path.parts.last());
}

proof fn lemma_depth_is_a_bundle(parts: Seq<Seq<u8>>, n: int)
    requires
        n <= parts.len(),
    ensures
        0 <= bundle_depth(parts, n),
        n >= 0 ==> bundle_depth(parts, n) <= n,
        bundle_depth(parts, n) > 0 ==> bundle_stem(parts[bundle_depth(parts, n) - 1]) is Some,
    decreases n,
{
    if n > 0 && bundle_stem(parts[n - 1]) is None {
        lemma_depth_is_a_bundle(parts, n - 1);
    }
}

/// A path in a buffer ends before the first zero byte.
pub proof fn law_a_path_ends_before_the_zero(path: Seq<u8>, rest: Seq<u8>)
    requires
        !path.contains(0),
    ensures
        until_zero(path + seq![0u8] + rest) == path,
        until_zero(path) == path,
    decreases path.len(),
{
    let all = path + seq![0u8] + rest;
    if path.len() == 0 {
        assert(all.first() == 0);
        assert(path =~= Seq::<u8>::empty());
    } else {
        assert(path.contains(path[0]));
        assert(all.first() == path[0]);
        assert(all.drop_first() =~= path.drop_first() + seq![0u8] + rest);
        assert forall|b: u8| path.drop_first().contains(b) implies path.contains(b) by {
            let i = choose|i: int| 0 <= i < path.drop_first().len() && path.drop_first()[i] == b;
            assert(path[i + 1] == b);
        }
        law_a_path_ends_before_the_zero(path.drop_first(), rest);
        assert(seq![path[0]] + path.drop_first() =~= path);
    }
}

} // verus!
