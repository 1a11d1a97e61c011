use vstd::prelude::*;
use crate::errors::PathResolutionError;

verus! {

/// The path separator byte, `/`.
pub const SEPARATOR: u8 = 47;

/// A path component is a non-empty run of bytes with no separator.
pub open spec fn wf_component(c: Seq<u8>) -> bool {
    c.len() > 0 && forall|i: int| 0 <= i < c.len() ==> c[i] != SEPARATOR
}

/// The sequence-of-sequences view of a vector of path components.
pub open spec fn components_view(cs: Seq<Vec<u8>>) -> Seq<Seq<u8>> {
    cs.map_values(|v: Vec<u8>| v@)
}

/// `p` lies under the directory `root`: `root`'s components are a prefix of `p`'s.
pub open spec fn is_under(root: Seq<Seq<u8>>, p: Seq<Seq<u8>>) -> bool {
    root.is_prefix_of(p)
}

/// Splitting state: the components found so far in `rest`, given the partial
/// component `cur` read just before `rest`.
pub open spec fn split_rest(cur: Seq<u8>, rest: Seq<u8>) -> Seq<Seq<u8>>
    decreases rest.len(),
{
    if rest.len() == 0 {
        if cur.len() == 0 {
            seq![]
        } else {
            seq![cur]
        }
    } else if rest[0] == SEPARATOR {
        if cur.len() == 0 {
            split_rest(Seq::empty(), rest.skip(1))
        } else {
            seq![cur] + split_rest(Seq::empty(), rest.skip(1))
        }
    } else {
        split_rest(cur.push(rest[0]), rest.skip(1))
    }
}

/// The components of a byte path: maximal non-empty runs of non-separator
/// bytes. Leading, trailing and repeated separators contribute nothing.
pub open spec fn spec_split(s: Seq<u8>) -> Seq<Seq<u8>> {
    split_rest(Seq::empty(), s)
}

/// The byte path of an absolute component sequence: each component preceded
/// by one separator.
pub open spec fn spec_join(cs: Seq<Seq<u8>>) -> Seq<u8>
    decreases cs.len(),
{
    if cs.len() == 0 {
        seq![]
    } else {
        spec_join(cs.drop_last()) + seq![SEPARATOR] + cs.last()
    }
}

/// Every component a split yields is well-formed: the partial component read
/// so far contains no separator, and the split never adds one.
proof fn lemma_split_rest_wf(cur: Seq<u8>, rest: Seq<u8>)
    requires
        forall|i: int| 0 <= i < cur.len() ==> cur[i] != SEPARATOR,
    ensures
        forall|i: int|
            0 <= i < split_rest(cur, rest).len() ==> wf_component(
                #[trigger] split_rest(cur, rest)[i],
            ),
    decreases rest.len(),
{
    if rest.len() == 0 {
        if cur.len() > 0 {
            assert(split_rest(cur, rest)[0] == cur);
            assert(wf_component(cur));
        }
    } else if rest[0] == SEPARATOR {
        lemma_split_rest_wf(Seq::empty(), rest.skip(1));
        if cur.len() == 0 {
            assert(split_rest(cur, rest) == split_rest(Seq::empty(), rest.skip(1)));
        }
        if cur.len() > 0 {
            assert forall|i: int|
                0 <= i < split_rest(cur, rest).len() implies wf_component(
                #[trigger] split_rest(cur, rest)[i],
            ) by {
                if i == 0 {
                    assert(split_rest(cur, rest)[0] == cur);
                } else {
                    assert(split_rest(cur, rest)[i] == split_rest(Seq::empty(), rest.skip(1))[i
                        - 1]);
                }
            }
        }
    } else {
        assert(forall|i: int|
            0 <= i < cur.push(rest[0]).len() ==> #[trigger] cur.push(rest[0])[i] != SEPARATOR);
        lemma_split_rest_wf(cur.push(rest[0]), rest.skip(1));
        assert forall|i: int|
            0 <= i < split_rest(cur, rest).len() implies wf_component(
            #[trigger] split_rest(cur, rest)[i],
        ) by {
            assert(split_rest(cur, rest)[i] == split_rest(cur.push(rest[0]), rest.skip(1))[i]);
            assert(wf_component(split_rest(cur.push(rest[0]), rest.skip(1))[i]));
        }
    }
}

/// Splits a byte path into its components, each of them well-formed.
pub fn split_path(s: &[u8]) -> (r: Vec<Vec<u8>>)
    ensures
        components_view(r@) == spec_split(s@),
        forall|i: int|
            0 <= i < r@.len() ==> wf_component(#[trigger] components_view(r@)[i]),
{
    proof {
        lemma_split_rest_wf(Seq::empty(), s@);
    }
    let mut comps: Vec<Vec<u8>> = Vec::new();
    let mut cur: Vec<u8> = Vec::new();
    let mut i: usize = 0;
    proof {
        assert(s@.skip(0) =~= s@);
        assert(components_view(comps@) =~= Seq::<Seq<u8>>::empty());
        assert(Seq::<Seq<u8>>::empty() + split_rest(cur@, s@) =~= split_rest(cur@, s@));
    }
    while i < s.len()
        invariant
            i <= s.len(),
            components_view(comps@) + split_rest(cur@, s@.skip(i as int)) == spec_split(s@),
        decreases s.len() - i,
    {
        let ghost prev_cur = cur@;
        let ghost prev_comps = comps@;
        proof {
            assert(s@.skip(i as int).skip(1) =~= s@.skip(i + 1));
            assert(s@.skip(i as int)[0] == s@[i as int]);
            assert(s@.skip(i as int).len() > 0);
        }
        let c = s[i];
        if c == SEPARATOR {
            if cur.len() > 0 {
                comps.push(cur);
                cur = Vec::new();
                proof {
                    assert(split_rest(prev_cur, s@.skip(i as int)) == seq![prev_cur] + split_rest(
                        Seq::empty(),
                        s@.skip(i + 1),
                    ));
                    assert(components_view(comps@) =~= components_view(prev_comps) + seq![
                        prev_cur,
                    ]);
                    assert(components_view(comps@) + split_rest(cur@, s@.skip(i + 1))
                        =~= components_view(prev_comps) + split_rest(prev_cur, s@.skip(i as int)));
                }
            } else {
                proof {
                    assert(split_rest(prev_cur, s@.skip(i as int)) == split_rest(
                        Seq::empty(),
                        s@.skip(i + 1),
                    ));
                    assert(cur@ =~= Seq::<u8>::empty());
                }
            }
        } else {
            cur.push(c);
            proof {
                assert(split_rest(prev_cur, s@.skip(i as int)) == split_rest(cur@, s@.skip(i + 1)));
            }
        }
        i += 1;
    }
    proof {
        assert(s@.skip(i as int) =~= Seq::<u8>::empty());
    }
    if cur.len() > 0 {
        let ghost old_comps = comps@;
        let ghost finished = cur@;
        comps.push(cur);
        proof {
            assert(components_view(comps@) =~= components_view(old_comps) + seq![finished]);
        }
    } else {
        proof {
            assert(components_view(comps@) + split_rest(cur@, Seq::empty()) =~= components_view(
                comps@,
            ));
        }
    }
    comps
}

/// Joins components into an absolute byte path.
pub fn join_path(cs: &Vec<Vec<u8>>) -> (r: Vec<u8>)
    ensures
        r@ == spec_join(components_view(cs@)),
{
    let mut r: Vec<u8> = Vec::new();
    let mut i: usize = 0;
    proof {
        assert(components_view(cs@).take(0) =~= Seq::<Seq<u8>>::empty());
    }
    while i < cs.len()
        invariant
            i <= cs.len(),
            r@ == spec_join(components_view(cs@).take(i as int)),
        decreases cs.len() - i,
    {
        r.push(SEPARATOR);
        let mut j: usize = 0;
        while j < cs[i].len()
            invariant
                i < cs.len(),
                j <= cs@[i as int].len(),
                r@ == spec_join(components_view(cs@).take(i as int)) + seq![SEPARATOR]
                    + cs@[i as int]@.take(j as int),
            decreases cs@[i as int].len() - j,
        {
            r.push(cs[i][j]);
            proof {
                assert(cs@[i as int]@.take(j + 1) =~= cs@[i as int]@.take(j as int).push(
                    cs@[i as int]@[j as int],
                ));
            }
            j += 1;
        }
        proof {
            assert(cs@[i as int]@.take(cs@[i as int]@.len() as int) =~= cs@[i as int]@);
            assert(components_view(cs@).take(i + 1).drop_last() =~= components_view(cs@).take(
                i as int,
            ));
            assert(components_view(cs@).take(i + 1).last() == cs@[i as int]@);
        }
        i += 1;
    }
    proof {
        assert(components_view(cs@).take(cs@.len() as int) =~= components_view(cs@));
    }
    r
}

/// What one probe of the filesystem reported for an accumulated path:
/// `None` if it did not exist, `Some(Ok(c))` if it canonicalized to the
/// components `c`, `Some(Err(errno))` if canonicalization failed.
pub type ResolveProbe = Option<Result<Seq<Seq<u8>>, int>>;

/// One step of resolution: extend the accumulated path by a component, then
/// apply what the filesystem reported for the extended path.
pub open spec fn resolve_step(acc: Seq<Seq<u8>>, comp: Seq<u8>, probe: ResolveProbe) -> Result<
    Seq<Seq<u8>>,
    (Seq<Seq<u8>>, int),
> {
    match probe {
        None => Ok(acc.push(comp)),
        Some(Ok(c)) => Ok(c),
        Some(Err(e)) => Err((acc.push(comp), e)),
    }
}

/// Resolution of the remaining components `rest` from the accumulated path
/// `acc`, under the filesystem reports `tr` (one per component).
pub open spec fn resolve_path(
    acc: Seq<Seq<u8>>,
    rest: Seq<Seq<u8>>,
    tr: Seq<ResolveProbe>,
) -> Result<Seq<Seq<u8>>, (Seq<Seq<u8>>, int)>
    decreases rest.len(),
{
    if rest.len() == 0 {
        Ok(acc)
    } else {
        match resolve_step(acc, rest[0], tr[0]) {
            Ok(acc2) => resolve_path(acc2, rest.skip(1), tr.skip(1)),
            Err(e) => Err(e),
        }
    }
}

/// Resolution can be cut at any point `k`: resolve the first `k` components,
/// then resolve the rest from there.
pub proof fn lemma_resolve_path_decompose(
    acc: Seq<Seq<u8>>,
    rest: Seq<Seq<u8>>,
    tr: Seq<ResolveProbe>,
    k: int,
)
    requires
        tr.len() == rest.len(),
        0 <= k <= rest.len(),
    ensures
        resolve_path(acc, rest, tr) == (match resolve_path(acc, rest.take(k), tr.take(k)) {
            Ok(m) => resolve_path(m, rest.skip(k), tr.skip(k)),
            Err(e) => Err(e),
        }),
    decreases k,
{
    if k == 0 {
        assert(rest.take(0) =~= Seq::<Seq<u8>>::empty());
        assert(rest.skip(0) =~= rest);
        assert(tr.skip(0) =~= tr);
    } else {
        assert(rest.take(k)[0] == rest[0]);
        assert(tr.take(k)[0] == tr[0]);
        match resolve_step(acc, rest[0], tr[0]) {
            Ok(acc2) => {
                lemma_resolve_path_decompose(acc2, rest.skip(1), tr.skip(1), k - 1);
                assert(rest.skip(1).take(k - 1) =~= rest.take(k).skip(1));
                assert(tr.skip(1).take(k - 1) =~= tr.take(k).skip(1));
                assert(rest.skip(1).skip(k - 1) =~= rest.skip(k));
                assert(tr.skip(1).skip(k - 1) =~= tr.skip(k));
            },
            Err(e) => {},
        }
    }
}

/// Appending one more component and probe to a resolution applies one more step.
pub proof fn lemma_resolve_path_snoc(
    acc: Seq<Seq<u8>>,
    pre: Seq<Seq<u8>>,
    x: Seq<u8>,
    tr: Seq<ResolveProbe>,
    p: ResolveProbe,
)
    requires
        tr.len() == pre.len(),
    ensures
        resolve_path(acc, pre.push(x), tr.push(p)) == (match resolve_path(acc, pre, tr) {
            Ok(m) => resolve_step(m, x, p),
            Err(e) => Err(e),
        }),
{
    let rest = pre.push(x);
    let trp = tr.push(p);
    lemma_resolve_path_decompose(acc, rest, trp, pre.len() as int);
    assert(rest.take(pre.len() as int) =~= pre);
    assert(trp.take(pre.len() as int) =~= tr);
    assert(rest.skip(pre.len() as int) =~= seq![x]);
    assert(trp.skip(pre.len() as int) =~= seq![p]);
    match resolve_path(acc, pre, tr) {
        Ok(m) => {
            assert(seq![x][0] == x);
            assert(seq![p][0] == p);
            match resolve_step(m, x, p) {
                Ok(m2) => {
                    assert(seq![x].skip(1) =~= Seq::<Seq<u8>>::empty());
                    assert(resolve_path(m2, seq![x].skip(1), seq![p].skip(1)) == Ok::<
                        Seq<Seq<u8>>,
                        (Seq<Seq<u8>>, int),
                    >(m2));
                },
                Err(e) => {},
            }
        },
        Err(e) => {},
    }
}

/// Relies on std::path::Path::exists: reports whether the path currently
/// exists on disk. The outcome depends on the state of the disk, so nothing
/// is promised of it.
#[verifier::external_body]
fn probe_exists(path: &Vec<u8>) -> bool {
    let s = String::from_utf8_lossy(path.as_slice()).into_owned();
    std::path::Path::new(&s).exists()
}

/// Relies on std::path::Path::canonicalize: on success the result is the
/// canonical, absolute form of the path, so it begins with a separator.
/// Which path comes back depends on the state of the disk.
#[verifier::external_body]
fn canonicalize_bytes(path: &Vec<u8>) -> (r: Result<Vec<u8>, i32>)
    ensures
        r matches Ok(p) ==> p@.len() > 0 && p@[0] == SEPARATOR,
{
    let s = String::from_utf8_lossy(path.as_slice()).into_owned();
    match std::path::Path::new(&s).canonicalize() {
        Ok(p) => Ok(p.to_string_lossy().into_owned().into_bytes()),
        Err(e) => Err(e.raw_os_error().unwrap_or(0)),
    }
}

/// Resolves a relative mount destination against a root directory.
///
/// The destination is joined under the root, and the joined path is walked
/// component by component; every accumulated prefix that currently exists on
/// disk is replaced by its canonical form before the walk continues, so a
/// symlink in an existing prefix is collapsed as soon as it is reached.
/// Components that do not exist are appended unresolved. Fails only when an
/// existing prefix cannot be canonicalized.
///
/// Beside the outcome, the sequence of filesystem reports that drove the walk
/// comes back as ghost data, one report per joined component: the outcome is
/// exactly the resolution model `resolve_path` run over the joined components
/// with those reports; the walk fails exactly when one of the reports is a
/// failed canonicalization (such a failure is never passed over); and when
/// every report is an absence the joined path comes back unchanged. The laws
/// `lemma_resolution_confined` and `lemma_trailing_absence_appends_verbatim`
/// apply to the returned outcome and report sequence.
pub fn resolve_in_rootfs(destination_rel: &[u8], rootfs: &Vec<Vec<u8>>) -> (r: (
    Result<Vec<Vec<u8>>, PathResolutionError>,
    Ghost<Seq<ResolveProbe>>,
))
    ensures
        ({
            let joined = components_view(rootfs@) + spec_split(destination_rel@);
            let tr = r.1@;
            tr.len() == joined.len() && match r.0 {
                Ok(p) => resolve_path(Seq::empty(), joined, tr) == Ok::<
                    Seq<Seq<u8>>,
                    (Seq<Seq<u8>>, int),
                >(components_view(p@)) && (forall|i: int|
                    0 <= i < tr.len() ==> !(#[trigger] tr[i] matches Some(Err(_)))),
                Err(e) => resolve_path(Seq::empty(), joined, tr) == Err::<
                    Seq<Seq<u8>>,
                    (Seq<Seq<u8>>, int),
                >((components_view(e.path@), e.errno as int)) && exists|i: int|
                    0 <= i < tr.len() && #[trigger] tr[i] matches Some(Err(_)),
            }
        }),
        (forall|i: int| 0 <= i < r.1@.len() ==> #[trigger] r.1@[i] is None) ==> (r.0 matches Ok(p)
            && components_view(p@) == components_view(rootfs@) + spec_split(destination_rel@)),
{
    let mut comps: Vec<Vec<u8>> = Vec::new();
    let mut k: usize = 0;
    proof {
        assert(components_view(comps@) =~= components_view(rootfs@).take(0));
    }
    while k < rootfs.len()
        invariant
            k <= rootfs.len(),
            components_view(comps@) == components_view(rootfs@).take(k as int),
        decreases rootfs.len() - k,
    {
        let ghost prev = comps@;
        comps.push(vstd::slice::slice_to_vec(rootfs[k].as_slice()));
        proof {
            assert(components_view(comps@) =~= components_view(prev).push(rootfs@[k as int]@));
            assert(components_view(rootfs@).take(k + 1) =~= components_view(rootfs@).take(
                k as int,
            ).push(rootfs@[k as int]@));
        }
        k += 1;
    }
    let mut dest = split_path(destination_rel);
    let ghost before_append = comps@;
    let ghost dest_view = dest@;
    comps.append(&mut dest);
    let ghost jv = components_view(comps@);
    proof {
        assert(components_view(rootfs@).take(rootfs@.len() as int) =~= components_view(rootfs@));
        assert(jv =~= components_view(before_append) + components_view(dest_view));
        assert(jv =~= components_view(rootfs@) + spec_split(destination_rel@));
    }

    let mut acc: Vec<Vec<u8>> = Vec::new();
    let ghost mut tr: Seq<ResolveProbe> = Seq::empty();
    let mut i: usize = 0;
    proof {
        assert(jv.take(0) =~= Seq::<Seq<u8>>::empty());
        assert(components_view(acc@) =~= Seq::<Seq<u8>>::empty());
    }
    while i < comps.len()
        invariant
            i <= comps.len(),
            tr.len() == i,
            jv == components_view(comps@),
            jv == components_view(rootfs@) + spec_split(destination_rel@),
            resolve_path(Seq::empty(), jv.take(i as int), tr) == Ok::<
                Seq<Seq<u8>>,
                (Seq<Seq<u8>>, int),
            >(components_view(acc@)),
            forall|i2: int| 0 <= i2 < tr.len() ==> !(#[trigger] tr[i2] matches Some(Err(_))),
        decreases comps.len() - i,
    {
        let ghost acc_before = components_view(acc@);
        let comp = vstd::slice::slice_to_vec(comps[i].as_slice());
        let ghost compv = comp@;
        acc.push(comp);
        proof {
            assert(components_view(acc@) =~= acc_before.push(compv));
            assert(jv.take(i as int).push(jv[i as int]) =~= jv.take(i + 1));
            assert(compv == jv[i as int]);
        }
        let pathbytes = join_path(&acc);
        let ghost probe: ResolveProbe;
        if probe_exists(&pathbytes) {
            match canonicalize_bytes(&pathbytes) {
                Ok(cb) => {
                    let newacc = split_path(cb.as_slice());
                    proof {
                        probe = Some(Ok(components_view(newacc@)));
                    }
                    acc = newacc;
                },
                Err(e) => {
                    let ghost failed: ResolveProbe = Some(Err(e as int));
                    let ghost tr1 = tr.push(failed);
                    let ghost pad = Seq::new(
                        (jv.len() - (i + 1)) as nat,
                        |j: int| None::<Result<Seq<Seq<u8>>, int>>,
                    );
                    let ghost trf = tr1 + pad;
                    proof {
                        lemma_resolve_path_snoc(
                            Seq::empty(),
                            jv.take(i as int),
                            jv[i as int],
                            tr,
                            failed,
                        );
                        lemma_resolve_path_decompose(Seq::empty(), jv, trf, i + 1);
                        assert(trf.take(i + 1) =~= tr1);
                        assert(trf.len() == jv.len());
                        assert(resolve_path(Seq::empty(), jv, trf) == Err::<
                            Seq<Seq<u8>>,
                            (Seq<Seq<u8>>, int),
                        >((components_view(acc@), e as int)));
                        assert(trf[i as int] == failed);
                        assert(trf[i as int] matches Some(Err(_)));
                    }
                    return (Err(PathResolutionError { path: acc, errno: e }), Ghost(trf));
                },
            }
        } else {
            proof {
                probe = None;
            }
        }
        proof {
            lemma_resolve_path_snoc(Seq::empty(), jv.take(i as int), jv[i as int], tr, probe);
            tr = tr.push(probe);
        }
        i += 1;
    }
    proof {
        assert(jv.take(comps@.len() as int) =~= jv);
        if forall|i2: int| 0 <= i2 < tr.len() ==> #[trigger] tr[i2] is None {
            lemma_resolve_all_absent(Seq::empty(), jv, tr);
            assert(Seq::<Seq<u8>>::empty() + jv =~= jv);
        }
    }
    (Ok(acc), Ghost(tr))
}

/// Resolution with every probe absent appends all components unresolved.
proof fn lemma_resolve_all_absent(acc: Seq<Seq<u8>>, rest: Seq<Seq<u8>>, tr: Seq<ResolveProbe>)
    requires
        tr.len() == rest.len(),
        forall|i: int| 0 <= i < tr.len() ==> tr[i] is None,
    ensures
        resolve_path(acc, rest, tr) == Ok::<Seq<Seq<u8>>, (Seq<Seq<u8>>, int)>(acc + rest),
    decreases rest.len(),
{
    if rest.len() == 0 {
        assert(acc + rest =~= acc);
    } else {
        assert(tr[0] is None);
        lemma_resolve_all_absent(acc.push(rest[0]), rest.skip(1), tr.skip(1));
        assert(acc.push(rest[0]) + rest.skip(1) =~= acc + rest);
    }
}

/// Once the accumulated path lies under the root, it stays under the root,
/// provided every canonicalization reported by the filesystem stays under it:
/// appending a raw component can never leave the root.
proof fn lemma_under_preserved(
    root: Seq<Seq<u8>>,
    acc: Seq<Seq<u8>>,
    rest: Seq<Seq<u8>>,
    tr: Seq<ResolveProbe>,
)
    requires
        tr.len() == rest.len(),
        is_under(root, acc),
        forall|i: int| 0 <= i < tr.len() ==> (#[trigger] tr[i] matches Some(Ok(c)) ==> is_under(root, c)),
    ensures
        resolve_path(acc, rest, tr) matches Ok(out) ==> is_under(root, out),
    decreases rest.len(),
{
    if rest.len() > 0 {
        let acc2 = match resolve_step(acc, rest[0], tr[0]) {
            Ok(a) => a,
            Err(_) => acc,
        };
        match tr[0] {
            None => {
                assert(acc.push(rest[0]).subrange(0, root.len() as int) =~= acc.subrange(
                    0,
                    root.len() as int,
                ));
                assert(is_under(root, acc.push(rest[0])));
            },
            Some(Ok(c)) => {
                assert(tr[0] matches Some(Ok(cc)) && cc == c);
            },
            Some(Err(_)) => {},
        }
        if !(tr[0] matches Some(Err(_))) {
            assert forall|i: int|
                0 <= i < tr.skip(1).len() implies (#[trigger] tr.skip(1)[i] matches Some(Ok(c))
                ==> is_under(root, c)) by {
                assert(tr.skip(1)[i] == tr[i + 1]);
            }
            lemma_under_preserved(root, acc2, rest.skip(1), tr.skip(1));
        }
    }
}

/// Walking the root directory's own components, each either absent or
/// canonicalizing to itself, arrives exactly at the root.
proof fn lemma_resolve_root_prefix(root: Seq<Seq<u8>>, tr: Seq<ResolveProbe>, j: int)
    requires
        0 <= j <= root.len(),
        tr.len() == root.len() - j,
        forall|i: int|
            0 <= i < tr.len() ==> tr[i] is None || tr[i] == Some(
                Ok::<Seq<Seq<u8>>, int>(root.take(j + i + 1)),
            ),
    ensures
        resolve_path(root.take(j), root.skip(j), tr) == Ok::<
            Seq<Seq<u8>>,
            (Seq<Seq<u8>>, int),
        >(root),
    decreases root.len() - j,
{
    if j == root.len() {
        assert(root.take(j) =~= root);
    } else {
        assert(root.skip(j)[0] == root[j]);
        assert(tr[0] is None || tr[0] == Some(Ok::<Seq<Seq<u8>>, int>(root.take(j + 1))));
        assert(root.take(j).push(root[j]) =~= root.take(j + 1));
        assert forall|i: int|
            0 <= i < tr.skip(1).len() implies (tr.skip(1)[i] is None || tr.skip(1)[i] == Some(
            Ok::<Seq<Seq<u8>>, int>(root.take(j + 1 + i + 1)),
        )) by {
            assert(tr.skip(1)[i] == tr[i + 1]);
        }
        lemma_resolve_root_prefix(root, tr.skip(1), j + 1);
        assert(root.skip(j).skip(1) =~= root.skip(j + 1));
    }
}

/// Resolution cannot escape the root directory: if the root's own path is
/// already canonical (each of its prefixes either absent or canonicalizing to
/// itself) and every canonicalized existing prefix of the destination stays
/// under the root, then the resolved path lies under the root — in
/// particular, components that never existed can never move it outside.
pub proof fn lemma_resolution_confined(
    root: Seq<Seq<u8>>,
    dest: Seq<Seq<u8>>,
    tr: Seq<ResolveProbe>,
    out: Seq<Seq<u8>>,
)
    requires
        tr.len() == root.len() + dest.len(),
        forall|i: int|
            0 <= i < root.len() ==> tr[i] is None || tr[i] == Some(
                Ok::<Seq<Seq<u8>>, int>(root.take(i + 1)),
            ),
        forall|i: int|
            root.len() <= i < tr.len() ==> (#[trigger] tr[i] matches Some(Ok(c)) ==> is_under(
                root,
                c,
            )),
        resolve_path(Seq::empty(), root + dest, tr) == Ok::<
            Seq<Seq<u8>>,
            (Seq<Seq<u8>>, int),
        >(out),
    ensures
        is_under(root, out),
{
    let joined = root + dest;
    let rl = root.len() as int;
    lemma_resolve_path_decompose(Seq::empty(), joined, tr, rl);
    assert(joined.take(rl) =~= root);
    assert(joined.skip(rl) =~= dest);
    assert forall|i: int|
        0 <= i < tr.take(rl).len() implies (tr.take(rl)[i] is None || tr.take(rl)[i] == Some(
        Ok::<Seq<Seq<u8>>, int>(root.take(0 + i + 1)),
    )) by {
        assert(tr.take(rl)[i] == tr[i]);
    }
    assert(root.take(0) =~= Seq::<Seq<u8>>::empty());
    assert(root.skip(0) =~= root);
    lemma_resolve_root_prefix(root, tr.take(rl), 0);
    assert(root.subrange(0, rl) =~= root);
    assert(is_under(root, root));
    assert forall|i: int|
        0 <= i < tr.skip(rl).len() implies (#[trigger] tr.skip(rl)[i] matches Some(Ok(c))
        ==> is_under(root, c)) by {
        assert(tr.skip(rl)[i] == tr[i + rl]);
    }
    lemma_under_preserved(root, root, dest, tr.skip(rl));
}

/// Components that did not exist at resolution time pass through unresolved:
/// if every probe from position `k` on reported absence, resolution succeeds
/// and appends the joined suffix unchanged to the resolution of the prefix.
pub proof fn lemma_absent_suffix_unresolved(
    joined: Seq<Seq<u8>>,
    tr: Seq<ResolveProbe>,
    k: int,
    mid: Seq<Seq<u8>>,
)
    requires
        tr.len() == joined.len(),
        0 <= k <= joined.len(),
        forall|i: int| k <= i < tr.len() ==> tr[i] is None,
        resolve_path(Seq::empty(), joined.take(k), tr.take(k)) == Ok::<
            Seq<Seq<u8>>,
            (Seq<Seq<u8>>, int),
        >(mid),
    ensures
        resolve_path(Seq::empty(), joined, tr) == Ok::<Seq<Seq<u8>>, (Seq<Seq<u8>>, int)>(
            mid + joined.skip(k),
        ),
{
    lemma_resolve_path_decompose(Seq::empty(), joined, tr, k);
    assert forall|i: int| 0 <= i < tr.skip(k).len() implies tr.skip(k)[i] is None by {
        assert(tr.skip(k)[i] == tr[i + k]);
    }
    lemma_resolve_all_absent(mid, joined.skip(k), tr.skip(k));
}

/// The same law, taken from a finished resolution: when a walk succeeded and
/// every probe from position `k` on reported absence, the result is whatever
/// the first `k` components resolved to, with the joined suffix appended
/// verbatim and unresolved. It applies directly to the outcome and report
/// sequence that `resolve_in_rootfs` returns.
pub proof fn lemma_trailing_absence_appends_verbatim(
    joined: Seq<Seq<u8>>,
    tr: Seq<ResolveProbe>,
    k: int,
    out: Seq<Seq<u8>>,
)
    requires
        tr.len() == joined.len(),
        0 <= k <= joined.len(),
        forall|i: int| k <= i < tr.len() ==> tr[i] is None,
        resolve_path(Seq::empty(), joined, tr) == Ok::<Seq<Seq<u8>>, (Seq<Seq<u8>>, int)>(out),
    ensures
        exists|mid: Seq<Seq<u8>>|
            resolve_path(Seq::empty(), joined.take(k), tr.take(k)) == Ok::<
                Seq<Seq<u8>>,
                (Seq<Seq<u8>>, int),
            >(mid) && out == mid + joined.skip(k),
{
    lemma_resolve_path_decompose(Seq::empty(), joined, tr, k);
    match resolve_path(Seq::empty(), joined.take(k), tr.take(k)) {
        Ok(mid) => {
            lemma_absent_suffix_unresolved(joined, tr, k, mid);
            assert(out == mid + joined.skip(k));
        },
        Err(_) => {
            assert(false);
        },
    }
}

} // verus!
