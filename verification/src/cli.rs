use vstd::prelude::*;
use vstd::string::StringSliceAdditionalSpecFns;

use crate::cbytes::{ascii_bytes, is_first_nul, nul_free, CBytes, NulError};
use crate::command::{bytes_start_with, cbytes_views, starts_with, Command};
use crate::flags::{MS_BIND, MS_RDONLY, MS_SLAVE};
use crate::mount::{mount_has, Mount};
use crate::namespace::{Namespace, NamespaceKind};

verus! {

/// The views of a list of byte strings.
pub open spec fn vec_views(v: Seq<Vec<u8>>) -> Seq<Seq<u8>> {
    v.map_values(|x: Vec<u8>| x@)
}

/// `pieces` joined, with `sep` between each two.
pub open spec fn join_with(pieces: Seq<Seq<u8>>, sep: u8) -> Seq<u8>
    decreases pieces.len(),
{
    if pieces.len() == 0 {
        Seq::empty()
    } else if pieces.len() == 1 {
        pieces[0]
    } else {
        join_with(pieces.drop_last(), sep) + seq![sep] + pieces.last()
    }
}

/// `pieces` are the parts of `s` between the bytes `sep`: joined with `sep`
/// they give `s`, and none holds `sep`. (There is one such list.)
pub open spec fn is_split(pieces: Seq<Seq<u8>>, s: Seq<u8>, sep: u8) -> bool {
    &&& pieces.len() >= 1
    &&& join_with(pieces, sep) == s
    &&& forall|i: int| 0 <= i < pieces.len() ==> !(#[trigger] pieces[i]).contains(sep)
}

proof fn lemma_join_push(pieces: Seq<Seq<u8>>, x: Seq<u8>, sep: u8)
    requires
        pieces.len() >= 1,
    ensures
        join_with(pieces.push(x), sep) == join_with(pieces, sep) + seq![sep] + x,
{
    assert(pieces.push(x).drop_last() =~= pieces);
}

/// Splits `s` at each byte `sep`, as `str::split` does.
pub fn split_bytes(s: &[u8], sep: u8) -> (r: Vec<Vec<u8>>)
    ensures
        is_split(vec_views(r@), s@, sep),
{
    let n: usize = s.len();
    let mut pieces: Vec<Vec<u8>> = Vec::new();
    let mut current: Vec<u8> = Vec::new();
    let mut i: usize = 0;
    assert(s@.take(0) =~= Seq::<u8>::empty());
    assert(vec_views(pieces@).push(current@) =~= seq![Seq::<u8>::empty()]);
    while i < n
        invariant
            n == s@.len(),
            i <= n,
            join_with(vec_views(pieces@).push(current@), sep) == s@.take(i as int),
            forall|j: int| 0 <= j < pieces@.len() ==> !(#[trigger] vec_views(pieces@)[j]).contains(sep),
            !current@.contains(sep),
        decreases n - i,
    {
        let ghost old_pieces = vec_views(pieces@);
        let ghost old_current = current@;
        assert(s@.take(i + 1) =~= s@.take(i as int).push(s@[i as int]));
        if s[i] == sep {
            pieces.push(current);
            current = Vec::new();
            proof {
                assert(vec_views(pieces@) =~= old_pieces.push(old_current));
                lemma_join_push(vec_views(pieces@), Seq::<u8>::empty(), sep);
                if old_pieces.len() >= 1 {
                    lemma_join_push(old_pieces, old_current, sep);
                } else {
                    assert(old_pieces.push(old_current) =~= seq![old_current]);
                }
                assert(vec_views(pieces@).push(current@) =~= vec_views(pieces@).push(
                    Seq::<u8>::empty(),
                ));
                assert(join_with(vec_views(pieces@).push(current@), sep) =~= s@.take(i + 1));
                assert(!current@.contains(sep));
            }
        } else {
            current.push(s[i]);
            proof {
                if old_pieces.len() >= 1 {
                    lemma_join_push(old_pieces, old_current, sep);
                    lemma_join_push(old_pieces, current@, sep);
                    assert(join_with(old_pieces.push(current@), sep) =~= join_with(
                        old_pieces.push(old_current),
                        sep,
                    ).push(s@[i as int]));
                } else {
                    assert(old_pieces.push(old_current) =~= seq![old_current]);
                    assert(old_pieces.push(current@) =~= seq![current@]);
                }
                assert(vec_views(pieces@).push(current@) =~= old_pieces.push(current@));
                assert forall|k: int| 0 <= k < current@.len() implies current@[k] != sep by {
                    if k < old_current.len() {
                        assert(current@[k] == old_current[k]);
                    }
                }
            }
        }
        i = i + 1;
    }
    let ghost before = vec_views(pieces@);
    pieces.push(current);
    proof {
        assert(vec_views(pieces@) =~= before.push(current@));
        assert(s@.take(n as int) =~= s@);
        assert forall|j: int| 0 <= j < vec_views(pieces@).len() implies !(#[trigger] vec_views(
            pieces@,
        )[j]).contains(sep) by {
            if j < before.len() {
                assert(vec_views(pieces@)[j] == before[j]);
            }
        }
    }
    pieces
}

/// `s` without its leading slashes.
pub open spec fn strip_slashes(s: Seq<u8>) -> Seq<u8>
    decreases s.len(),
{
    if s.len() > 0 && s[0] == 0x2fu8 {
        strip_slashes(s.drop_first())
    } else {
        s
    }
}

/// A path relative to the root: `path` without its leading slashes.
pub fn rootless(path: &[u8]) -> (r: &[u8])
    ensures
        r@ == strip_slashes(path@),
{
    let n: usize = path.len();
    let mut i: usize = 0;
    assert(path@.skip(0) =~= path@);
    while i < n && path[i] == 0x2fu8
        invariant
            n == path@.len(),
            i <= n,
            strip_slashes(path@) == strip_slashes(path@.skip(i as int)),
        decreases n - i,
    {
        assert(path@.skip(i as int).drop_first() =~= path@.skip(i + 1));
        i = i + 1;
    }
    let r = vstd::slice::slice_subrange(path, i, n);
    assert(r@ =~= path@.skip(i as int));
    r
}

/// The first option that begins with `opt`, without that beginning.
pub open spec fn option_value_of(options: Seq<Seq<u8>>, opt: Seq<u8>) -> Option<Seq<u8>>
    decreases options.len(),
{
    if options.len() == 0 {
        None
    } else if starts_with(options[0], opt) {
        Some(options[0].skip(opt.len() as int))
    } else {
        option_value_of(options.drop_first(), opt)
    }
}

/// A mount given on the command line: a list of directories separated by
/// `:` (the last is where it goes), then, after a `,`, options separated
/// by `,`.
#[derive(Debug)]
pub struct MountArg {
    pub mounts: Vec<Vec<u8>>,
    pub options: Vec<Vec<u8>>,
}

impl MountArg {
    pub open spec fn spec_mounts(&self) -> Seq<Seq<u8>> {
        vec_views(self.mounts@)
    }

    pub open spec fn spec_options(&self) -> Seq<Seq<u8>> {
        vec_views(self.options@)
    }

    /// The directory the mount goes to.
    pub fn last_mount(&self) -> (r: &Vec<u8>)
        requires
            self.mounts@.len() > 0,
        ensures
            r@ == self.spec_mounts().last(),
    {
        &self.mounts[self.mounts.len() - 1]
    }

    /// Whether `opt` is one of the options.
    pub fn contains_option(&self, opt: &[u8]) -> (r: bool)
        ensures
            r == self.spec_options().contains(opt@),
    {
        let n: usize = self.options.len();
        let mut i: usize = 0;
        while i < n
            invariant
                n == self.options@.len(),
                i <= n,
                forall|j: int| 0 <= j < i ==> self.spec_options()[j] != opt@,
            decreases n - i,
        {
            let o = &self.options[i];
            if bytes_eq(o.as_slice(), opt) {
                assert(self.spec_options()[i as int] == opt@);
                return true;
            }
            i = i + 1;
        }
        false
    }

    /// The value of the first option that begins with `opt`: what follows
    /// `opt` in it.
    pub fn option_value(&self, opt: &[u8]) -> (r: Option<Vec<u8>>)
        ensures
            match r {
                Some(v) => option_value_of(self.spec_options(), opt@) == Some(v@),
                None => option_value_of(self.spec_options(), opt@) is None,
            },
    {
        let n: usize = self.options.len();
        let mut i: usize = 0;
        assert(self.spec_options().skip(0) =~= self.spec_options());
        while i < n
            invariant
                n == self.options@.len(),
                i <= n,
                option_value_of(self.spec_options(), opt@) == option_value_of(
                    self.spec_options().skip(i as int),
                    opt@,
                ),
            decreases n - i,
        {
            let o = &self.options[i];
            assert(self.spec_options().skip(i as int)[0] == o@);
            assert(self.spec_options().skip(i as int).drop_first() =~= self.spec_options().skip(
                i + 1,
            ));
            if bytes_start_with(o.as_slice(), opt) {
                let rest = vstd::slice::slice_subrange(o.as_slice(), opt.len(), o.len());
                let v = vstd::slice::slice_to_vec(rest);
                assert(v@ =~= o@.skip(opt@.len() as int));
                return Some(v);
            }
            i = i + 1;
        }
        assert(self.spec_options().skip(n as int) =~= Seq::<Seq<u8>>::empty());
        None
    }
}

/// Whether two byte strings are equal.
pub fn bytes_eq(a: &[u8], b: &[u8]) -> (r: bool)
    ensures
        r == (a@ == b@),
{
    if a.len() != b.len() {
        return false;
    }
    let r = bytes_start_with(a, b);
    proof {
        assert(a@.take(b@.len() as int) =~= a@);
    }
    r
}

/// The first index of `x` in `s`, if any.
pub open spec fn first_index_of(s: Seq<u8>, x: u8) -> Option<int>
    decreases s.len(),
{
    if s.len() == 0 {
        None
    } else if s[0] == x {
        Some(0)
    } else {
        match first_index_of(s.drop_first(), x) {
            Some(k) => Some(k + 1),
            None => None,
        }
    }
}

/// The first index of `x` in `s` holds `x`, and no earlier one does;
/// where there is none, `s` does not hold `x`.
pub proof fn lemma_first_index_of(s: Seq<u8>, x: u8)
    ensures
        match first_index_of(s, x) {
            Some(k) => 0 <= k < s.len() && s[k] == x && !s.take(k).contains(x),
            None => !s.contains(x),
        },
    decreases s.len(),
{
    if s.len() > 0 {
        lemma_first_index_of(s.drop_first(), x);
        match first_index_of(s.drop_first(), x) {
            Some(k) => {
                if s[0] != x {
                    assert(s.take(k + 1) =~= seq![s[0]] + s.drop_first().take(k));
                    if s.take(k + 1).contains(x) {
                        let j = choose|j: int| 0 <= j < k + 1 && #[trigger] s.take(k + 1)[j] == x;
                        assert(j > 0);
                        assert(s.drop_first().take(k)[j - 1] == x);
                    }
                } else {
                    assert(s.take(0) =~= Seq::<u8>::empty());
                }
            },
            None => {
                if s[0] == x {
                    assert(s.take(0) =~= Seq::<u8>::empty());
                } else if s.contains(x) {
                    let j = choose|j: int| 0 <= j < s.len() && #[trigger] s[j] == x;
                    assert(s.drop_first()[j - 1] == x);
                }
            },
        }
    } else {
        assert(!s.contains(x));
    }
}

/// The parts of a mount argument: the directories, split at `:`, before
/// the first `,`; the options, split at `,`, after it (none without a `,`).
pub open spec fn parse_mount_spec(b: Seq<u8>, mounts: Seq<Seq<u8>>, options: Seq<Seq<u8>>) -> bool {
    match first_index_of(b, 0x2cu8) {
        Some(k) => is_split(mounts, b.take(k), 0x3au8) && is_split(options, b.skip(k + 1), 0x2cu8),
        None => is_split(mounts, b, 0x3au8) && options.len() == 0,
    }
}

/// Reads a mount argument: `dir[:dir...][,option[,option...]]`.
pub fn parse_mount(value: &str) -> (r: MountArg)
    ensures
        parse_mount_spec(value.spec_bytes(), r.spec_mounts(), r.spec_options()),
        r.spec_mounts().len() >= 1,
{
    let b = value.as_bytes();
    let n: usize = b.len();
    let mut i: usize = 0;
    proof {
        assert(b@.skip(0) =~= b@);
    }
    while i < n && b[i] != 0x2cu8
        invariant
            n == b@.len(),
            i <= n,
            forall|j: int| 0 <= j < i ==> b@[j] != 0x2cu8,
            first_index_of(b@, 0x2cu8) == match first_index_of(b@.skip(i as int), 0x2cu8) {
                Some(k) => Some(k + i),
                None => None,
            },
        decreases n - i,
    {
        assert(b@.skip(i as int).drop_first() =~= b@.skip(i + 1));
        i = i + 1;
    }
    if i < n {
        assert(b@.skip(i as int)[0] == 0x2cu8);
        let mounts = split_bytes(vstd::slice::slice_subrange(b, 0, i), 0x3au8);
        let options = split_bytes(vstd::slice::slice_subrange(b, i + 1, n), 0x2cu8);
        assert(b@.subrange(0, i as int) =~= b@.take(i as int));
        assert(b@.subrange(i + 1, n as int) =~= b@.skip(i + 1));
        MountArg { mounts, options }
    } else {
        assert(b@.skip(n as int) =~= Seq::<u8>::empty());
        let mounts = split_bytes(b, 0x3au8);
        MountArg { mounts, options: Vec::new() }
    }
}

/// `base` joined with `rel` as `Path::join` does on Unix: an absolute `rel`
/// replaces `base`; otherwise a `/` goes between them unless `base` is
/// empty or already ends with one.
pub open spec fn join_path(base: Seq<u8>, rel: Seq<u8>) -> Seq<u8> {
    if rel.len() > 0 && rel[0] == 0x2fu8 {
        rel
    } else if base.len() == 0 || base.last() == 0x2fu8 {
        base + rel
    } else {
        base + seq![0x2fu8] + rel
    }
}

/// Appends `s` to `v`.
pub fn push_all(v: &mut Vec<u8>, s: &[u8])
    ensures
        final(v)@ == old(v)@ + s@,
{
    let ghost start = v@;
    let n: usize = s.len();
    let mut i: usize = 0;
    while i < n
        invariant
            n == s@.len(),
            i <= n,
            v@ == start + s@.take(i as int),
        decreases n - i,
    {
        assert(s@.take(i + 1) =~= s@.take(i as int).push(s@[i as int]));
        v.push(s[i]);
        i = i + 1;
    }
    assert(s@.take(n as int) =~= s@);
}

/// `base` joined with `rel`.
pub fn join_path_bytes(base: &[u8], rel: &[u8]) -> (r: Vec<u8>)
    ensures
        r@ == join_path(base@, rel@),
{
    if rel.len() > 0 && rel[0] == 0x2fu8 {
        return vstd::slice::slice_to_vec(rel);
    }
    let mut r = vstd::slice::slice_to_vec(base);
    if base.len() > 0 && base[base.len() - 1] != 0x2fu8 {
        r.push(0x2fu8);
    }
    push_all(&mut r, rel);
    r
}

/// Where a bind argument goes: its last directory, under `join` where
/// one is given.
pub open spec fn bind_dest(mounts: Seq<Seq<u8>>, join: Option<Seq<u8>>) -> Seq<u8> {
    match join {
        Some(j) => join_path(j, strip_slashes(mounts.last())),
        None => mounts.last(),
    }
}

/// `MS_RDONLY` where the option `ro` is given.
pub open spec fn bind_readonly(options: Seq<Seq<u8>>) -> u64 {
    if options.contains(ascii_bytes("ro"@)) {
        MS_RDONLY
    } else {
        0
    }
}

/// The options of an overlay mount of `mounts`: every directory but the
/// last as a lower directory; unless read-only, the next to last as the
/// upper directory too; and the `workdir=` option's directory, if any.
pub open spec fn overlay_options(mounts: Seq<Seq<u8>>, options: Seq<Seq<u8>>) -> Seq<u8> {
    let lowers = mounts.take(mounts.len() - 1);
    ascii_bytes("lowerdir="@) + join_with(lowers, 0x3au8) + (if bind_readonly(options) != 0 {
        Seq::empty()
    } else {
        ascii_bytes(",upperdir="@) + mounts[mounts.len() - 2]
    }) + match option_value_of(options, ascii_bytes("workdir="@)) {
        Some(w) => ascii_bytes(",workdir="@) + w,
        None => Seq::empty(),
    }
}

/// `r` failed on `bytes`, naming its first NUL byte.
pub open spec fn nul_error_on(r: Result<Mount, NulError>, bytes: Seq<u8>) -> bool {
    r matches Err(e) && e.bytes@ == bytes && is_first_nul(bytes, e.position as int)
}

/// The mount of a command line argument `dir[:dir...]` with options: a
/// directory bound to itself; two, the first bound to the second; more,
/// an overlay file system of them, all at the place `bind_dest` names.
/// Bind mounts are slaves of the host's; `ro` makes either read-only. The
/// first byte string with a NUL byte, of the place, the options and the
/// source, fails it.
pub open spec fn mount_bind_spec(
    mounts: Seq<Seq<u8>>,
    options: Seq<Seq<u8>>,
    join: Option<Seq<u8>>,
    r: Result<Mount, NulError>,
) -> bool {
    let dest = bind_dest(mounts, join);
    let ro = bind_readonly(options);
    if !nul_free(dest) {
        nul_error_on(r, dest)
    } else if mounts.len() > 2 {
        let opts = overlay_options(mounts, options);
        if !nul_free(opts) {
            nul_error_on(r, opts)
        } else {
            r matches Ok(m) && mount_has(
                m,
                dest,
                Some(ascii_bytes("overlay"@)),
                Some(ascii_bytes("overlay"@)),
                ro,
                Some(opts),
            )
        }
    } else {
        let source = if mounts.len() == 2 {
            mounts[0]
        } else {
            dest
        };
        if !nul_free(source) {
            nul_error_on(r, source)
        } else {
            r matches Ok(m) && mount_has(m, dest, Some(source), None, MS_BIND | MS_SLAVE | ro, None)
        }
    }
}

/// The texts that the mount of a command line argument turns into C
/// strings, in order: its place, then its overlay options or its source.
pub open spec fn bind_texts(mounts: Seq<Seq<u8>>, options: Seq<Seq<u8>>, join: Option<Seq<u8>>) -> Seq<Seq<u8>> {
    let dest = bind_dest(mounts, join);
    seq![
        dest,
        if mounts.len() > 2 {
            overlay_options(mounts, options)
        } else if mounts.len() == 2 {
            mounts[0]
        } else {
            dest
        },
    ]
}

/// The mount of an argument fails exactly on the first of its texts that
/// is not a C string, with the error on that text.
pub proof fn lemma_mount_bind_texts(mounts: Seq<Seq<u8>>, options: Seq<Seq<u8>>, join: Option<Seq<u8>>, r: Result<Mount, NulError>)
    requires
        mount_bind_spec(mounts, options, join, r),
    ensures
        match r {
            Ok(_) => first_with_nul(bind_texts(mounts, options, join)) is None,
            Err(e) => first_with_nul(bind_texts(mounts, options, join)) == Some(e.bytes@)
                && is_first_nul(e.bytes@, e.position as int),
        },
{
    let t = bind_texts(mounts, options, join);
    assert(t.drop_first().drop_first() =~= Seq::<Seq<u8>>::empty());
    assert(first_with_nul(t.drop_first().drop_first()) is None);
    assert(t.drop_first()[0] == t[1]);
    if r is Ok {
        assert(nul_free(t[0]));
        assert(nul_free(t[1]));
        assert(first_with_nul(t.drop_first()) is None);
    }
}

/// A command-line argument of one or two directories is a bind mount. Its
/// place is its last directory, joined under the root where one is given;
/// its source is its first directory exactly as given (only the place is
/// joined under the root), which for one directory is the place itself.
/// It is a slave of the host's mounts, read-only with the option `ro`,
/// and it succeeds exactly where the place and the source are C strings.
pub proof fn lemma_mount_bind_plain(mounts: Seq<Seq<u8>>, options: Seq<Seq<u8>>, join: Option<Seq<u8>>, r: Result<Mount, NulError>)
    requires
        mounts.len() == 1 || mounts.len() == 2,
        mount_bind_spec(mounts, options, join, r),
    ensures
        ({
            let place = match join {
                Some(j) => join_path(j, strip_slashes(mounts[mounts.len() - 1])),
                None => mounts[mounts.len() - 1],
            };
            let source = if mounts.len() == 2 {
                mounts[0]
            } else {
                place
            };
            &&& r is Ok <==> nul_free(place) && nul_free(source)
            &&& r matches Ok(m) ==> {
                &&& m.spec_path() == place
                &&& m.spec_source() == Some(source)
                &&& m.spec_filesystem() is None
                &&& m.spec_flags() == 0x1000u64 | 0x80000u64 | (if options.contains(
                    ascii_bytes("ro"@),
                ) {
                    1u64
                } else {
                    0u64
                })
                &&& m.spec_opts() is None
            }
        }),
{
}

/// A command-line argument of three or more directories is an overlay file
/// system at the place of its last directory (joined under the root where
/// one is given). Every directory but the last is a lower directory, in
/// order and separated by `:`; unless the option `ro` makes it read-only,
/// the next to last is its upper directory too; a `workdir=` option gives
/// its work directory. It succeeds exactly where the place and the
/// options are C strings.
pub proof fn lemma_mount_bind_overlay(mounts: Seq<Seq<u8>>, options: Seq<Seq<u8>>, join: Option<Seq<u8>>, r: Result<Mount, NulError>)
    requires
        mounts.len() > 2,
        mount_bind_spec(mounts, options, join, r),
    ensures
        ({
            let n = mounts.len();
            let ro = options.contains(ascii_bytes("ro"@));
            let place = match join {
                Some(j) => join_path(j, strip_slashes(mounts[n - 1])),
                None => mounts[n - 1],
            };
            let opts = ascii_bytes("lowerdir="@) + join_with(mounts.take(n - 1), 0x3au8) + (if ro {
                Seq::empty()
            } else {
                ascii_bytes(",upperdir="@) + mounts[n - 2]
            }) + match option_value_of(options, ascii_bytes("workdir="@)) {
                Some(w) => ascii_bytes(",workdir="@) + w,
                None => Seq::empty(),
            };
            &&& r is Ok <==> nul_free(place) && nul_free(opts)
            &&& r matches Ok(m) ==> {
                &&& m.spec_path() == place
                &&& m.spec_source() == Some(ascii_bytes("overlay"@))
                &&& m.spec_filesystem() == Some(ascii_bytes("overlay"@))
                &&& m.spec_flags() == if ro { 1u64 } else { 0u64 }
                &&& m.spec_opts() == Some(opts)
            }
        }),
{
}

/// The directory that an overlay argument names as its work directory,
/// which must exist before it is mounted: only for an overlay whose place
/// is a C string.
pub open spec fn bind_workdir_spec(mounts: Seq<Seq<u8>>, options: Seq<Seq<u8>>, join: Option<Seq<u8>>) -> Option<Seq<u8>> {
    if nul_free(bind_dest(mounts, join)) && mounts.len() > 2 {
        option_value_of(options, ascii_bytes("workdir="@))
    } else {
        None
    }
}

fn bind_dest_bytes(mount: &MountArg, join: Option<&[u8]>) -> (r: Vec<u8>)
    requires
        mount.mounts@.len() > 0,
    ensures
        r@ == bind_dest(mount.spec_mounts(), match join {
            Some(j) => Some(j@),
            None => None,
        }),
{
    let last = mount.last_mount();
    match join {
        Some(j) => join_path_bytes(j, rootless(last.as_slice())),
        None => vstd::slice::slice_to_vec(last.as_slice()),
    }
}

fn readonly_flags(mount: &MountArg) -> (r: u64)
    ensures
        r == bind_readonly(mount.spec_options()),
{
    proof {
        reveal_strlit("ro");
    }
    let ro = CBytes::from_ascii("ro");
    if mount.contains_option(ro.as_bytes()) {
        MS_RDONLY
    } else {
        0
    }
}

/// The work directory of an overlay argument, to be made before the mount.
pub fn bind_workdir(mount: &MountArg, join: Option<&[u8]>) -> (r: Option<Vec<u8>>)
    requires
        mount.mounts@.len() > 0,
    ensures
        match r {
            Some(w) => bind_workdir_spec(mount.spec_mounts(), mount.spec_options(), match join {
                Some(j) => Some(j@),
                None => None,
            }) == Some(w@),
            None => bind_workdir_spec(mount.spec_mounts(), mount.spec_options(), match join {
                Some(j) => Some(j@),
                None => None,
            }) is None,
        },
{
    let dest = bind_dest_bytes(mount, join);
    match CBytes::new(dest) {
        Err(_) => None,
        Ok(_) => if mount.mounts.len() > 2 {
            proof {
                reveal_strlit("workdir=");
            }
            let key = CBytes::from_ascii("workdir=");
            mount.option_value(key.as_bytes())
        } else {
            None
        },
    }
}

fn overlay_options_bytes(mount: &MountArg) -> (r: Vec<u8>)
    requires
        mount.mounts@.len() > 2,
    ensures
        r@ == overlay_options(mount.spec_mounts(), mount.spec_options()),
{
    proof {
        reveal_strlit("lowerdir=");
        reveal_strlit(",upperdir=");
        reveal_strlit(",workdir=");
        reveal_strlit("workdir=");
    }
    let ghost ms = mount.spec_mounts();
    let len: usize = mount.mounts.len();
    let mut opts = CBytes::from_ascii("lowerdir=").to_vec();
    push_all(&mut opts, mount.mounts[0].as_slice());
    let ghost head = ascii_bytes("lowerdir="@);
    assert(ms.take(1) =~= seq![ms[0]]);
    let mut i: usize = 1;
    while i < len - 1
        invariant
            len == ms.len(),
            ms == mount.spec_mounts(),
            len > 2,
            1 <= i <= len - 1,
            opts@ == head + join_with(ms.take(i as int), 0x3au8),
        decreases len - 1 - i,
    {
        proof {
            assert(ms.take(i + 1).drop_last() =~= ms.take(i as int));
            assert(ms.take(i + 1).last() == ms[i as int]);
        }
        opts.push(0x3au8);
        push_all(&mut opts, mount.mounts[i].as_slice());
        assert(opts@ =~= head + join_with(ms.take(i + 1), 0x3au8));
        i = i + 1;
    }
    if readonly_flags(mount) == 0 {
        push_all(&mut opts, CBytes::from_ascii(",upperdir=").as_bytes());
        push_all(&mut opts, mount.mounts[len - 2].as_slice());
    }
    let key = CBytes::from_ascii("workdir=");
    match mount.option_value(key.as_bytes()) {
        Some(w) => {
            push_all(&mut opts, CBytes::from_ascii(",workdir=").as_bytes());
            push_all(&mut opts, w.as_slice());
        },
        None => {},
    }
    assert(opts@ =~= overlay_options(mount.spec_mounts(), mount.spec_options()));
    opts
}

/// The mount of a command line argument: see `mount_bind_spec`.
pub fn mount_bind(mount: &MountArg, join: Option<&[u8]>) -> (r: Result<Mount, NulError>)
    requires
        mount.mounts@.len() > 0,
    ensures
        mount_bind_spec(mount.spec_mounts(), mount.spec_options(), match join {
            Some(j) => Some(j@),
            None => None,
        }, r),
{
    proof {
        reveal_strlit("overlay");
    }
    let readonly = readonly_flags(mount);
    let dest = match CBytes::new(bind_dest_bytes(mount, join)) {
        Ok(d) => d,
        Err(e) => return Err(e),
    };
    let len: usize = mount.mounts.len();
    if len > 2 {
        let options = match CBytes::new(overlay_options_bytes(mount)) {
            Ok(o) => o,
            Err(e) => return Err(e),
        };
        Ok(
            Mount::new(
                dest,
                Some(CBytes::from_ascii("overlay")),
                Some(CBytes::from_ascii("overlay")),
                readonly,
                Some(options),
            ),
        )
    } else {
        let source = if len == 2 {
            match CBytes::from_slice(mount.mounts[0].as_slice()) {
                Ok(s) => s,
                Err(e) => return Err(e),
            }
        } else {
            dest.duplicate()
        };
        Ok(Mount::from_bind(dest, source, MS_BIND | MS_SLAVE | readonly))
    }
}

/// A path without its leading slashes is relative: it does not begin with
/// a slash, and it is what follows them in the path.
pub proof fn lemma_strip_slashes_relative(s: Seq<u8>)
    ensures
        strip_slashes(s).len() <= s.len(),
        !(strip_slashes(s).len() > 0 && strip_slashes(s)[0] == 0x2fu8),
        strip_slashes(s) == s.skip(s.len() - strip_slashes(s).len()),
        forall|j: int| 0 <= j < s.len() - strip_slashes(s).len() ==> s[j] == 0x2fu8,
    decreases s.len(),
{
    if s.len() > 0 && s[0] == 0x2fu8 {
        lemma_strip_slashes_relative(s.drop_first());
        let t = strip_slashes(s.drop_first());
        assert(s.drop_first().skip(s.drop_first().len() - t.len()) =~= s.skip(s.len() - t.len()));
        assert forall|j: int| 0 <= j < s.len() - t.len() implies s[j] == 0x2fu8 by {
            if j > 0 {
                assert(s[j] == s.drop_first()[j - 1]);
            }
        }
    } else {
        assert(s.skip(0) =~= s);
    }
}

/// New mount, IPC, UTS and PID namespaces, in this order.
pub open spec fn is_exec_namespaces(s: Seq<Namespace>) -> bool {
    &&& s.len() == 4
    &&& s[0].spec_kind() == NamespaceKind::Mount
    &&& s[1].spec_kind() == NamespaceKind::IPC
    &&& s[2].spec_kind() == NamespaceKind::UTS
    &&& s[3].spec_kind() == NamespaceKind::PID
    &&& forall|i: int| 0 <= i < 4 ==> (#[trigger] s[i]).spec_path() is None
}

/// The namespaces a command runs in: new mount, IPC, UTS and PID
/// namespaces.
pub fn exec_namespaces() -> (r: Vec<Namespace>)
    ensures
        r@.len() == 4,
        r@[0].spec_kind() == NamespaceKind::Mount,
        r@[1].spec_kind() == NamespaceKind::IPC,
        r@[2].spec_kind() == NamespaceKind::UTS,
        r@[3].spec_kind() == NamespaceKind::PID,
        forall|i: int| 0 <= i < 4 ==> (#[trigger] r@[i]).spec_path() is None,
{
    let mut namespaces = vec![
        Namespace::with_kind(NamespaceKind::Mount),
        Namespace::with_kind(NamespaceKind::IPC),
        Namespace::with_kind(NamespaceKind::UTS),
    ];
    namespaces.push(Namespace::with_kind(NamespaceKind::PID));
    namespaces
}

/// Some entry of `env` sets `PATH`.
pub open spec fn sets_path(env: Seq<Seq<u8>>) -> bool {
    exists|i: int| 0 <= i < env.len() && starts_with(#[trigger] env[i], ascii_bytes("PATH="@))
}

/// Adds `PATH=/bin:/usr/bin` to an environment that does not set `PATH`.
pub fn add_default_path(env: &mut Vec<Vec<u8>>)
    ensures
        vec_views(final(env)@) == if sets_path(vec_views(old(env)@)) {
            vec_views(old(env)@)
        } else {
            vec_views(old(env)@).push(ascii_bytes("PATH=/bin:/usr/bin"@))
        },
{
    proof {
        reveal_strlit("PATH=");
        reveal_strlit("PATH=/bin:/usr/bin");
    }
    let prefix = CBytes::from_ascii("PATH=");
    let n: usize = env.len();
    let mut i: usize = 0;
    while i < n
        invariant
            n == env@.len(),
            i <= n,
            prefix@ == ascii_bytes("PATH="@),
            forall|j: int| 0 <= j < i ==> !starts_with(#[trigger] vec_views(env@)[j], ascii_bytes("PATH="@)),
        decreases n - i,
    {
        if bytes_start_with(env[i].as_slice(), prefix.as_bytes()) {
            assert(starts_with(vec_views(env@)[i as int], ascii_bytes("PATH="@)));
            return;
        }
        i = i + 1;
    }
    let ghost before = vec_views(env@);
    env.push(CBytes::from_ascii("PATH=/bin:/usr/bin").to_vec());
    assert(vec_views(env@) =~= before.push(ascii_bytes("PATH=/bin:/usr/bin"@)));
}

/// Whether an environment entry gives its value (holds `=`); an entry
/// without one names a variable whose value is taken from the host.
pub fn has_value(entry: &[u8]) -> (r: bool)
    ensures
        r == entry@.contains(0x3du8),
{
    let n: usize = entry.len();
    let mut i: usize = 0;
    while i < n
        invariant
            n == entry@.len(),
            i <= n,
            forall|j: int| 0 <= j < i ==> entry@[j] != 0x3du8,
        decreases n - i,
    {
        if entry[i] == 0x3du8 {
            return true;
        }
        i = i + 1;
    }
    false
}

/// The entry `name=value`.
pub fn env_assignment(name: &[u8], value: &[u8]) -> (r: Vec<u8>)
    ensures
        r@ == name@ + seq![0x3du8] + value@,
{
    let mut r = vstd::slice::slice_to_vec(name);
    r.push(0x3du8);
    push_all(&mut r, value);
    r
}

/// Prepares the root argument of a command: the directory of the mount
/// points goes first, and the new root, where there is one, last; the
/// result is the root the command runs in (the new root, else the
/// argument's last directory).
pub fn prepare_root_arg(root: &mut MountArg, mount_dir: Vec<u8>, root_dir: Option<Vec<u8>>) -> (r: Vec<u8>)
    requires
        old(root).mounts@.len() > 0,
    ensures
        r@ == match root_dir {
            Some(d) => d@,
            None => old(root).spec_mounts().last(),
        },
        final(root).spec_options() == old(root).spec_options(),
        final(root).spec_mounts() == seq![mount_dir@] + old(root).spec_mounts() + match root_dir {
            Some(d) => seq![d@],
            None => Seq::<Seq<u8>>::empty(),
        },
{
    let ghost old_mounts = root.spec_mounts();
    let ghost md = mount_dir@;
    root.mounts.insert(0, mount_dir);
    assert(root.spec_mounts() =~= seq![md] + old_mounts);
    let root_path = match &root_dir {
        Some(d) => vstd::slice::slice_to_vec(d.as_slice()),
        None => vstd::slice::slice_to_vec(root.last_mount().as_slice()),
    };
    match root_dir {
        Some(d) => {
            root.mounts.push(d);
        },
        None => {},
    }
    assert(root.spec_mounts() =~= seq![md] + old_mounts + match root_dir {
        Some(d) => seq![d@],
        None => Seq::<Seq<u8>>::empty(),
    });
    root_path
}

/// The first byte string of `list` that holds a NUL byte, if any.
pub open spec fn first_with_nul(list: Seq<Seq<u8>>) -> Option<Seq<u8>>
    decreases list.len(),
{
    if list.len() == 0 {
        None
    } else if !nul_free(list[0]) {
        Some(list[0])
    } else {
        first_with_nul(list.drop_first())
    }
}

/// The C strings of a list of byte strings, or the error on the first
/// that is not one.
pub fn c_strings_of(list: &Vec<Vec<u8>>) -> (r: Result<Vec<CBytes>, NulError>)
    ensures
        match r {
            Ok(v) => first_with_nul(vec_views(list@)) is None && cbytes_views(v@) == vec_views(list@),
            Err(e) => first_with_nul(vec_views(list@)) == Some(e.bytes@) && is_first_nul(
                e.bytes@,
                e.position as int,
            ),
        },
{
    let n: usize = list.len();
    let mut out: Vec<CBytes> = Vec::new();
    let mut i: usize = 0;
    assert(vec_views(list@).skip(0) =~= vec_views(list@));
    while i < n
        invariant
            n == list@.len(),
            i <= n,
            out@.len() == i,
            first_with_nul(vec_views(list@)) == first_with_nul(vec_views(list@).skip(i as int)),
            forall|j: int| 0 <= j < i ==> (#[trigger] out@[j])@ == list@[j]@,
        decreases n - i,
    {
        assert(vec_views(list@).skip(i as int)[0] == list@[i as int]@);
        assert(vec_views(list@).skip(i as int).drop_first() =~= vec_views(list@).skip(i + 1));
        match CBytes::from_slice(list[i].as_slice()) {
            Ok(c) => out.push(c),
            Err(e) => return Err(e),
        }
        i = i + 1;
    }
    assert(vec_views(list@).skip(n as int) =~= Seq::<Seq<u8>>::empty());
    assert(cbytes_views(out@) =~= vec_views(list@));
    Ok(out)
}

/// The C strings of `cmd` and of its argument list (`cmd`, then `args`), or
/// the error on the first of them that is not a C string.
pub fn command_args(cmd: &[u8], args: &Vec<Vec<u8>>) -> (r: Result<(CBytes, Vec<CBytes>), NulError>)
    ensures
        match r {
            Ok((c, v)) => first_with_nul(seq![cmd@] + vec_views(args@)) is None && c@ == cmd@
                && cbytes_views(v@) == seq![cmd@] + vec_views(args@),
            Err(e) => first_with_nul(seq![cmd@] + vec_views(args@)) == Some(e.bytes@)
                && is_first_nul(e.bytes@, e.position as int),
        },
{
    proof {
        lemma_first_with_nul_concat(seq![cmd@], vec_views(args@));
        assert((seq![cmd@]).drop_first() =~= Seq::<Seq<u8>>::empty());
        assert(first_with_nul(Seq::<Seq<u8>>::empty()) is None);
    }
    let c = match CBytes::from_slice(cmd) {
        Ok(c) => c,
        Err(e) => return Err(e),
    };
    let mut rest = match c_strings_of(args) {
        Ok(v) => v,
        Err(e) => return Err(e),
    };
    let mut all_args: Vec<CBytes> = vec![c.duplicate()];
    all_args.append(&mut rest);
    assert(cbytes_views(all_args@) =~= seq![cmd@] + vec_views(args@));
    Ok((c, all_args))
}

/// The command that runs `cmd` with `args` (after the program's name) in
/// `env`, or the error on the first of them that is not a C string.
pub fn exec_command(cmd: &[u8], args: &Vec<Vec<u8>>, env: &Vec<Vec<u8>>) -> (r: Result<Command, NulError>)
    ensures
        match r {
            Ok(c) => first_with_nul(seq![cmd@] + vec_views(args@) + vec_views(env@)) is None
                && c.spec_cmd() == cmd@ && c.spec_args() == seq![cmd@] + vec_views(args@)
                && c.spec_env() == vec_views(env@),
            Err(e) => first_with_nul(seq![cmd@] + vec_views(args@) + vec_views(env@)) == Some(
                e.bytes@,
            ) && is_first_nul(e.bytes@, e.position as int),
        },
{
    proof {
        lemma_first_with_nul_concat(seq![cmd@] + vec_views(args@), vec_views(env@));
    }
    let (c, all_args) = match command_args(cmd, args) {
        Ok(p) => p,
        Err(e) => return Err(e),
    };
    let envs = match c_strings_of(env) {
        Ok(v) => v,
        Err(e) => return Err(e),
    };
    Ok(Command::new(c, all_args, envs))
}

/// The first byte string with a NUL byte of two lists is that of the
/// first list, or where it has none, that of the second.
pub proof fn lemma_first_with_nul_concat(a: Seq<Seq<u8>>, b: Seq<Seq<u8>>)
    ensures
        first_with_nul(a + b) == match first_with_nul(a) {
            Some(x) => Some(x),
            None => first_with_nul(b),
        },
    decreases a.len(),
{
    if a.len() == 0 {
        assert(a + b =~= b);
    } else {
        assert((a + b).drop_first() =~= a.drop_first() + b);
        assert((a + b)[0] == a[0]);
        lemma_first_with_nul_concat(a.drop_first(), b);
    }
}

/// A relative path joined under `base` stays under `base`: the result
/// begins with `base`.
pub proof fn lemma_join_rootless_under(base: Seq<u8>, path: Seq<u8>)
    ensures
        starts_with(join_path(base, strip_slashes(path)), base),
{
    lemma_strip_slashes_relative(path);
    let j = join_path(base, strip_slashes(path));
    assert(j.take(base.len() as int) =~= base);
}

/// A mount argument placed under a root lands under that root.
pub proof fn lemma_bind_dest_under_root(mounts: Seq<Seq<u8>>, root: Seq<u8>)
    ensures
        starts_with(bind_dest(mounts, Some(root)), root),
{
    lemma_join_rootless_under(root, mounts.last());
}

} // verus!
