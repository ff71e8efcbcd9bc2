//! The state registry's logic: the state root, per-container paths,
//! listing and sorting, prefix resolution, and status refresh.
//!
//! The surrounding program performs the directory reads and file writes;
//! everything here works on the values it hands over.

use vstd::multiset::Multiset;
use vstd::prelude::*;

use crate::model::ContainerMeta;
use crate::model::ContainerStatus;
use crate::model::MetaModel;
use crate::text::push_str;

verus! {

broadcast use vstd::seq_lib::group_to_multiset_ensures;

/// Lexicographic order on character sequences, by scalar value.
pub open spec fn lex_le(a: Seq<char>, b: Seq<char>) -> bool
    decreases a.len(),
{
    if a.len() == 0 {
        true
    } else if b.len() == 0 {
        false
    } else if (a[0] as u32) < (b[0] as u32) {
        true
    } else if (a[0] as u32) > (b[0] as u32) {
        false
    } else {
        lex_le(a.drop_first(), b.drop_first())
    }
}

/// The order is total.
pub proof fn lemma_lex_total(a: Seq<char>, b: Seq<char>)
    ensures
        lex_le(a, b) || lex_le(b, a),
    decreases a.len(),
{
    if a.len() > 0 && b.len() > 0 && (a[0] as u32) == (b[0] as u32) {
        lemma_lex_total(a.drop_first(), b.drop_first());
    }
}

/// The order is transitive.
pub proof fn lemma_lex_trans(a: Seq<char>, b: Seq<char>, c: Seq<char>)
    requires
        lex_le(a, b),
        lex_le(b, c),
    ensures
        lex_le(a, c),
    decreases a.len(),
{
    if a.len() > 0 && b.len() > 0 && c.len() > 0 && (a[0] as u32) == (b[0] as u32) && (b[0] as u32)
        == (c[0] as u32) {
        lemma_lex_trans(a.drop_first(), b.drop_first(), c.drop_first());
    }
}

/// Compare two strings in lexicographic order.
pub fn str_le(a: &str, b: &str) -> (r: bool)
    ensures
        r == lex_le(a@, b@),
{
    let na = a.unicode_len();
    let nb = b.unicode_len();
    let mut i: usize = 0;
    proof {
        assert(a@.skip(0) =~= a@);
        assert(b@.skip(0) =~= b@);
    }
    loop
        invariant
            na == a@.len(),
            nb == b@.len(),
            0 <= i <= na,
            0 <= i <= nb,
            lex_le(a@, b@) == lex_le(a@.skip(i as int), b@.skip(i as int)),
        decreases na - i,
    {
        proof {
            if i < na {
                assert(a@.skip(i as int)[0] == a@[i as int]);
            }
            if i < nb {
                assert(b@.skip(i as int)[0] == b@[i as int]);
            }
        }
        if i == na {
            return true;
        }
        if i == nb {
            return false;
        }
        let ca = a.get_char(i) as u32;
        let cb = b.get_char(i) as u32;
        if ca < cb {
            return true;
        }
        if ca > cb {
            return false;
        }
        proof {
            assert(a@.skip(i as int).drop_first() =~= a@.skip(i + 1));
            assert(b@.skip(i as int).drop_first() =~= b@.skip(i + 1));
        }
        i += 1;
    }
}

/// A directory entry as probed by the surrounding program: its name and
/// whether it contains a metadata file.
pub struct EntryProbe {
    pub name: String,
    pub has_meta: bool,
}

/// The mathematical value of an `EntryProbe`.
pub struct EntryModel {
    pub name: Seq<char>,
    pub has_meta: bool,
}

impl View for EntryProbe {
    type V = EntryModel;

    open spec fn view(&self) -> EntryModel {
        EntryModel { name: self.name@, has_meta: self.has_meta }
    }
}

impl DeepView for EntryProbe {
    type V = EntryModel;

    open spec fn deep_view(&self) -> EntryModel {
        self.view()
    }
}

/// The names of the entries that hold a metadata file, in input order.
pub open spec fn kept_names(entries: Seq<EntryModel>) -> Seq<Seq<char>>
    decreases entries.len(),
{
    if entries.len() == 0 {
        Seq::<Seq<char>>::empty()
    } else if entries.last().has_meta {
        kept_names(entries.drop_last()).push(entries.last().name)
    } else {
        kept_names(entries.drop_last())
    }
}

/// A sequence of names in non-decreasing lexicographic order.
pub open spec fn lex_sorted(s: Seq<Seq<char>>) -> bool {
    forall|i: int, j: int| 0 <= i < j < s.len() ==> lex_le(s[i], s[j])
}

/// List the container IDs among the probed directory entries: exactly
/// the names whose directory holds a metadata file, in lexicographic
/// order.
pub fn list_containers(entries: &Vec<EntryProbe>) -> (r: Vec<String>)
    ensures
        lex_sorted(r.deep_view()),
        r.deep_view().to_multiset() == kept_names(entries.deep_view()).to_multiset(),
{
    let mut pending: Vec<String> = Vec::new();
    let mut i: usize = 0;
    while i < entries.len()
        invariant
            0 <= i <= entries@.len(),
            pending.deep_view() == kept_names(entries.deep_view().take(i as int)),
        decreases entries@.len() - i,
    {
        let ghost prev = pending.deep_view();
        if entries[i].has_meta {
            pending.push(entries[i].name.clone());
            proof {
                assert(pending.deep_view() =~= prev.push(entries@[i as int].name@));
            }
        }
        i += 1;
        proof {
            let taken = entries.deep_view().take(i as int);
            assert(taken.drop_last() =~= entries.deep_view().take(i - 1));
            assert(taken.last() == entries.deep_view()[i - 1]);
            assert(entries.deep_view()[i - 1] == entries@[i - 1]@);
            assert(pending.deep_view() =~= kept_names(taken));
        }
    }
    proof {
        assert(entries.deep_view().take(entries@.len() as int) =~= entries.deep_view());
    }
    sort_names(pending)
}

/// Sort names lexicographically by repeatedly extracting a least
/// element.
fn sort_names(input: Vec<String>) -> (r: Vec<String>)
    ensures
        lex_sorted(r.deep_view()),
        r.deep_view().to_multiset() == input.deep_view().to_multiset(),
{
    let mut src = input;
    let ghost orig = src.deep_view();
    let mut out: Vec<String> = Vec::new();
    while src.len() > 0
        invariant
            out.deep_view().to_multiset().add(src.deep_view().to_multiset())
                == orig.to_multiset(),
            lex_sorted(out.deep_view()),
            forall|i: int, j: int|
                0 <= i < out.deep_view().len() && 0 <= j < src.deep_view().len() ==> lex_le(
                    out.deep_view()[i],
                    src.deep_view()[j],
                ),
        decreases src@.len(),
    {
        let mut m: usize = 0;
        let mut k: usize = 1;
        proof {
            lemma_lex_total(src.deep_view()[0], src.deep_view()[0]);
        }
        while k < src.len()
            invariant
                0 <= m < k,
                k <= src@.len(),
                forall|t: int| 0 <= t < k ==> lex_le(src.deep_view()[m as int], src.deep_view()[t]),
            decreases src@.len() - k,
        {
            if str_le(src[k].as_str(), src[m].as_str()) {
                proof {
                    let dv = src.deep_view();
                    assert forall|t: int| 0 <= t < k + 1 implies lex_le(
                        dv[k as int],
                        dv[t],
                    ) by {
                        if t < k {
                            lemma_lex_trans(dv[k as int], dv[m as int], dv[t]);
                        } else {
                            lemma_lex_total(dv[k as int], dv[k as int]);
                        }
                    }
                }
                m = k;
            } else {
                proof {
                    lemma_lex_total(src.deep_view()[k as int], src.deep_view()[m as int]);
                }
            }
            k += 1;
        }
        let ghost before = src.deep_view();
        let ghost out_before = out.deep_view();
        let x = src.remove(m);
        out.push(x);
        proof {
            assert(out.deep_view() =~= out_before.push(x@));
            assert(src.deep_view() =~= before.remove(m as int));
            assert(x@ == before[m as int]);
            assert(out.deep_view().to_multiset() =~= out_before.to_multiset().insert(x@));
            assert(src.deep_view().to_multiset() =~= before.to_multiset().remove(x@));
            assert(before.to_multiset().count(x@) > 0);
            assert(out.deep_view().to_multiset().add(src.deep_view().to_multiset())
                =~= out_before.to_multiset().add(before.to_multiset()));
            assert forall|i: int, j: int|
                0 <= i < out.deep_view().len() && 0 <= j < src.deep_view().len() implies lex_le(
                out.deep_view()[i],
                src.deep_view()[j],
            ) by {
                let dvo = out.deep_view();
                let dvs = src.deep_view();
                assert(dvs[j] == if j < m { before[j] } else { before[j + 1] });
                if i < dvo.len() - 1 {
                    assert(lex_le(dvo[i], x@));
                }
            }
        }
    }
    proof {
        assert(src.deep_view().to_multiset() =~= Multiset::<Seq<char>>::empty());
        assert(out.deep_view().to_multiset() =~= orig.to_multiset());
    }
    out
}

/// Whether `p` is a prefix of `s`.
pub open spec fn is_prefix_of(p: Seq<char>, s: Seq<char>) -> bool {
    p.len() <= s.len() && s.subrange(0, p.len() as int) == p
}

/// Check whether `s` starts with `p`.
pub fn str_starts_with(s: &str, p: &str) -> (r: bool)
    ensures
        r == is_prefix_of(p@, s@),
{
    let np = p.unicode_len();
    let ns = s.unicode_len();
    if np > ns {
        return false;
    }
    let mut i: usize = 0;
    while i < np
        invariant
            np == p@.len(),
            ns == s@.len(),
            np <= ns,
            0 <= i <= np,
            forall|t: int| 0 <= t < i ==> s@[t] == p@[t],
        decreases np - i,
    {
        if s.get_char(i) != p.get_char(i) {
            proof {
                if s@.subrange(0, np as int) == p@ {
                    assert(s@.subrange(0, np as int)[i as int] == s@[i as int]);
                }
            }
            return false;
        }
        i += 1;
    }
    proof {
        assert(s@.subrange(0, np as int) =~= p@);
    }
    true
}

/// The IDs in `ids` that start with `p`, in input order.
pub open spec fn matches_of(ids: Seq<Seq<char>>, p: Seq<char>) -> Seq<Seq<char>>
    decreases ids.len(),
{
    if ids.len() == 0 {
        Seq::<Seq<char>>::empty()
    } else if is_prefix_of(p, ids.last()) {
        matches_of(ids.drop_last(), p).push(ids.last())
    } else {
        matches_of(ids.drop_last(), p)
    }
}

/// Why a prefix failed to resolve.
#[derive(Debug)]
pub enum ResolveError {
    /// No container ID starts with the prefix.
    NoMatch,
    /// More than one container ID starts with the prefix; the matching
    /// IDs are carried, in listing order.
    Ambiguous(Vec<String>),
}

/// Resolve a potentially abbreviated container ID to a full ID.
///
/// Succeeds exactly when one listed ID starts with `prefix`; with no
/// match or more than one match the error says which case holds.
pub fn resolve_id(ids: &Vec<String>, prefix: &str) -> (r: Result<String, ResolveError>)
    ensures
        match r {
            Ok(id) => matches_of(ids.deep_view(), prefix@).len() == 1 && id@ == matches_of(
                ids.deep_view(),
                prefix@,
            )[0],
            Err(ResolveError::NoMatch) => matches_of(ids.deep_view(), prefix@).len() == 0,
            Err(ResolveError::Ambiguous(v)) => matches_of(ids.deep_view(), prefix@).len() > 1
                && v.deep_view() == matches_of(ids.deep_view(), prefix@),
        },
{
    let ghost dv = ids.deep_view();
    let mut found: Vec<String> = Vec::new();
    let mut i: usize = 0;
    while i < ids.len()
        invariant
            0 <= i <= ids@.len(),
            found.deep_view() == matches_of(ids.deep_view().take(i as int), prefix@),
        decreases ids@.len() - i,
    {
        let ghost prev = found.deep_view();
        if str_starts_with(ids[i].as_str(), prefix) {
            found.push(ids[i].clone());
            proof {
                assert(found.deep_view() =~= prev.push(ids@[i as int]@));
            }
        }
        i += 1;
        proof {
            let taken = ids.deep_view().take(i as int);
            assert(taken.drop_last() =~= ids.deep_view().take(i - 1));
            assert(taken.last() == ids.deep_view()[i - 1]);
            assert(ids.deep_view()[i - 1] == ids@[i - 1]@);
            assert(found.deep_view() =~= matches_of(taken, prefix@));
        }
    }
    proof {
        assert(ids.deep_view().take(ids@.len() as int) =~= ids.deep_view());
    }
    if found.len() == 0 {
        Err(ResolveError::NoMatch)
    } else if found.len() == 1 {
        let id = found.remove(0);
        proof {
            assert(id@ == matches_of(dv, prefix@)[0]);
        }
        Ok(id)
    } else {
        Err(ResolveError::Ambiguous(found))
    }
}

/// The items joined with `, `.
pub open spec fn join_commas(items: Seq<Seq<char>>) -> Seq<char>
    decreases items.len(),
{
    if items.len() == 0 {
        Seq::<char>::empty()
    } else if items.len() == 1 {
        items[0]
    } else {
        items[0] + ", "@ + join_commas(items.drop_first())
    }
}

/// Join strings with `, `.
fn join_with_commas(items: &Vec<String>, upto: usize) -> (r: String)
    requires
        upto <= items@.len(),
    ensures
        r@ == join_commas(items.deep_view().take(upto as int)),
{
    let ghost dv = items.deep_view().take(upto as int);
    let mut out = String::new();
    let mut k: usize = 0;
    proof {
        assert(dv.skip(0) =~= dv);
        assert(out@ + join_commas(dv) =~= join_commas(dv));
    }
    while k < upto
        invariant
            0 <= k <= upto <= items@.len(),
            dv == items.deep_view().take(upto as int),
            out@ + join_commas(dv.skip(k as int)) == join_commas(dv),
        decreases upto - k,
    {
        proof {
            assert(dv.skip(k as int)[0] == dv[k as int]);
            assert(dv[k as int] == items@[k as int]@);
            assert(dv.skip(k as int).drop_first() =~= dv.skip(k + 1));
        }
        push_str(&mut out, items[k].as_str());
        if k < upto - 1 {
            push_str(&mut out, ", ");
        }
        k += 1;
    }
    proof {
        assert(join_commas(dv.skip(upto as int)) =~= Seq::<char>::empty());
        assert(out@ =~= join_commas(dv));
    }
    out
}

/// The number of matches previewed in an ambiguous-prefix message.
pub open spec fn preview_len(n: nat) -> nat {
    if n < 5 {
        n
    } else {
        5
    }
}

impl ResolveError {
    /// The user-visible message for a failed resolution: either that no
    /// container matched, or how many did, previewing at most five of
    /// their IDs.
    pub fn message(&self, prefix: &str) -> (r: String)
        ensures
            *self matches ResolveError::NoMatch ==> r@ == "no container found with ID prefix '"@
                + prefix@ + "'"@,
            (forall|v: Vec<String>| *self == ResolveError::Ambiguous(v) ==> r@
                == "ambiguous container ID prefix '"@ + prefix@ + "': "@ + crate::dec::dec_nat(
                v.deep_view().len(),
            ) + " matches ("@ + join_commas(
                v.deep_view().take(preview_len(v.deep_view().len()) as int),
            ) + ")"@),
    {
        match self {
            ResolveError::NoMatch => {
                let mut s = "no container found with ID prefix '".to_owned();
                push_str(&mut s, prefix);
                push_str(&mut s, "'");
                s
            },
            ResolveError::Ambiguous(v) => {
                let mut s = "ambiguous container ID prefix '".to_owned();
                push_str(&mut s, prefix);
                push_str(&mut s, "': ");
                let n = v.len();
                let count = crate::dec::u64_string(n as u64);
                push_str(&mut s, count.as_str());
                push_str(&mut s, " matches (");
                let upto = if n < 5 {
                    n
                } else {
                    5
                };
                let joined = join_with_commas(v, upto);
                push_str(&mut s, joined.as_str());
                push_str(&mut s, ")");
                s
            },
        }
    }
}

/// The state root: `/var/lib/craterun` for root, `$HOME/.craterun`
/// otherwise; nothing when `HOME` is needed but unset.
pub open spec fn state_root_model(is_root: bool, home: Option<Seq<char>>) -> Option<Seq<char>> {
    if is_root {
        Some("/var/lib/craterun"@)
    } else {
        match home {
            Some(h) => Some(h + "/.craterun"@),
            None => None,
        }
    }
}

/// Return the base state directory for this invocation, given whether
/// the effective user is root and the value of `HOME` if any.
pub fn state_dir(is_root: bool, home: Option<&str>) -> (r: Option<String>)
    ensures
        r matches Some(d) ==> state_root_model(
            is_root,
            match home {
                Some(h) => Some(h@),
                None => None,
            },
        ) == Some(d@),
        r is None <==> !is_root && home is None,
{
    if is_root {
        Some("/var/lib/craterun".to_owned())
    } else {
        match home {
            Some(h) => {
                let mut d = h.to_owned();
                push_str(&mut d, "/.craterun");
                Some(d)
            },
            None => None,
        }
    }
}

/// Return the directory for a specific container.
pub fn container_dir(state_root: &str, id: &str) -> (r: String)
    ensures
        r@ == state_root@ + "/"@ + id@,
{
    let mut d = state_root.to_owned();
    push_str(&mut d, "/");
    push_str(&mut d, id);
    d
}

/// Return the path of a container's metadata file.
pub fn meta_path(state_root: &str, id: &str) -> (r: String)
    ensures
        r@ == state_root@ + "/"@ + id@ + "/metadata.json"@,
{
    let mut d = container_dir(state_root, id);
    push_str(&mut d, "/metadata.json");
    d
}

/// Return the path for a log file of a container, such as `stdout.log`
/// or `stderr.log`.
pub fn log_path(state_root: &str, id: &str, name: &str) -> (r: String)
    ensures
        r@ == state_root@ + "/"@ + id@ + "/"@ + name@,
{
    let mut d = container_dir(state_root, id);
    push_str(&mut d, "/");
    push_str(&mut d, name);
    d
}

/// Relies on std's Path::exists: whether the given path exists on the
/// host at the moment of the call. The answer depends on the system
/// state, so nothing is promised of it.
#[verifier::external_body]
fn path_exists(p: &str) -> bool {
    std::path::Path::new(p).exists()
}

/// The procfs directory of a process: `/proc/<pid>`.
fn proc_path(pid: u32) -> (r: String)
    ensures
        r@ == "/proc/"@ + crate::dec::dec_nat(pid as nat),
{
    let mut p = "/proc/".to_owned();
    let pid_str = crate::dec::u64_string(pid as u64);
    push_str(&mut p, pid_str.as_str());
    p
}

/// Check whether a PID is alive on the host: a positive PID whose
/// `/proc/<pid>` directory exists. PID 0 is never alive; for a positive
/// PID the path handed to the existence probe is pinned here, and the
/// host's answer is taken as it comes.
pub fn pid_alive(pid: u32) -> (r: bool)
    ensures
        pid == 0 ==> r == false,
{
    if pid == 0 {
        return false;
    }
    let p = proc_path(pid);
    path_exists(p.as_str())
}

/// Whether a container in the given status may be removed: a running
/// container only with `force`.
pub fn can_remove(status: ContainerStatus, force: bool) -> (r: bool)
    ensures
        r == !(status == ContainerStatus::Running && !force),
{
    !(status == ContainerStatus::Running && !force)
}

/// Refresh the status field of metadata based on whether the PID is
/// still alive. Returns `true` if the status changed, in which case the
/// caller must persist the metadata. The exit code is left untouched:
/// it is unknown here, because only the launcher that reaped the child
/// can know it.
pub fn refresh_status(meta: &mut ContainerMeta) -> (changed: bool)
    ensures
        crate::model::meta_pid_wf(old(meta)@) ==> crate::model::meta_pid_wf(final(meta)@),
        old(meta).status != ContainerStatus::Running ==> !changed,
        old(meta).pid == 0 && old(meta).status == ContainerStatus::Running ==> changed,
        changed ==> old(meta).status == ContainerStatus::Running && final(meta)@ == (MetaModel {
            status: ContainerStatus::Stopped,
            ..old(meta)@
        }),
        !changed ==> final(meta)@ == old(meta)@,
{
    if meta.status == ContainerStatus::Running && !pid_alive(meta.pid) {
        meta.status = ContainerStatus::Stopped;
        true
    } else {
        false
    }
}

} // verus!
