//! `cargo act`: the decisions behind running the `act` CLI in a dev container.

use vstd::prelude::*;

use crate::text::{ends_with, has_prefix, has_suffix, sort_strings, sorted, starts_with, views};

verus! {

/// Command-line arguments of `cargo act`.
pub struct ActArgs {
    /// Arguments passed through to the `act` CLI.
    pub args: Vec<String>,
}

/// Directory-name prefix of the state that VS Code Dev Containers keeps in `/tmp`.
pub open spec fn is_devcontainers_dir(name: Seq<char>) -> bool {
    has_prefix(name, "devcontainers-"@)
}

/// Name of a Remote Containers IPC socket in `/tmp`.
pub open spec fn is_ipc_socket(name: Seq<char>) -> bool {
    has_prefix(name, "vscode-remote-containers-ipc-"@) && has_suffix(name, ".sock"@)
}

/// Whether `name` names a Dev Containers state directory.
pub fn devcontainers_dir_name(name: &str) -> (r: bool)
    ensures
        r == is_devcontainers_dir(name@),
{
    starts_with(name, "devcontainers-")
}

/// Whether `name` names a Remote Containers IPC socket.
pub fn ipc_socket_name(name: &str) -> (r: bool)
    ensures
        r == is_ipc_socket(name@),
{
    starts_with(name, "vscode-remote-containers-ipc-") && ends_with(name, ".sock")
}

/// The names among `names` that satisfy `keep`, in listing order.
pub open spec fn kept_names(names: Seq<Seq<char>>, keep: spec_fn(Seq<char>) -> bool) -> Seq<
    Seq<char>,
>
    decreases names.len(),
{
    if names.len() == 0 {
        seq![]
    } else {
        let r = kept_names(names.drop_last(), keep);
        if keep(names.last()) {
            r.push(names.last())
        } else {
            r
        }
    }
}

/// `r` holds the names of `names` that satisfy `keep`, in name order (for
/// the entries of one directory this is also their path order).
pub open spec fn chosen_in_order(
    r: Seq<Seq<char>>,
    names: Seq<Seq<char>>,
    keep: spec_fn(Seq<char>) -> bool,
) -> bool {
    &&& sorted(r)
    &&& r.to_multiset() == kept_names(names, keep).to_multiset()
}

/// The names among `names` that satisfy `keep`, in listing order.
fn keep_names(names: &Vec<String>, dirs: bool) -> (r: Vec<String>)
    ensures
        views(r@) == kept_names(
            views(names@),
            if dirs {
                |x: Seq<char>| is_devcontainers_dir(x)
            } else {
                |x: Seq<char>| is_ipc_socket(x)
            },
        ),
{
    let ghost keep = if dirs {
        |x: Seq<char>| is_devcontainers_dir(x)
    } else {
        |x: Seq<char>| is_ipc_socket(x)
    };
    let mut kept: Vec<String> = Vec::new();
    let mut i: usize = 0;
    while i < names.len()
        invariant
            i <= names@.len(),
            keep == (if dirs {
                |x: Seq<char>| is_devcontainers_dir(x)
            } else {
                |x: Seq<char>| is_ipc_socket(x)
            }),
            views(kept@) == kept_names(views(names@.take(i as int)), keep),
        decreases names@.len() - i,
    {
        let ghost before = kept@;
        let k = if dirs {
            devcontainers_dir_name(names[i].as_str())
        } else {
            ipc_socket_name(names[i].as_str())
        };
        assert(views(names@.take(i + 1)).drop_last() =~= views(names@.take(i as int)));
        assert(k == keep(names@[i as int]@));
        if k {
            kept.push(names[i].clone());
            assert(views(kept@) =~= views(before).push(names@[i as int]@));
        }
        i = i + 1;
    }
    assert(names@.take(names@.len() as int) =~= names@);
    kept
}

/// The names of `/tmp` entries (as listed in `names`) of Dev Containers
/// state directories, in the order in which to look at them.
pub fn devcontainers_dirs(names: &Vec<String>) -> (r: Vec<String>)
    ensures
        chosen_in_order(views(r@), views(names@), |x: Seq<char>| is_devcontainers_dir(x)),
{
    let kept = keep_names(names, true);
    sort_strings(&kept)
}

/// The names of `/tmp` entries (as listed in `names`) of Remote Containers
/// IPC sockets, in the order in which to try them.
pub fn ipc_sockets(names: &Vec<String>) -> (r: Vec<String>)
    ensures
        chosen_in_order(views(r@), views(names@), |x: Seq<char>| is_ipc_socket(x)),
{
    let kept = keep_names(names, false);
    sort_strings(&kept)
}

// ---------------------------------------------------------------------------
// Dev Containers env files
// ---------------------------------------------------------------------------

/// The string value of the top-level field `key` of the JSON document
/// `text`, as `serde_json` reads it; `None` when the text is not JSON, or
/// has no such field, or the field is not a string.
pub uninterp spec fn json_string_field(text: Seq<char>, key: Seq<char>) -> Option<Seq<char>>;

/// `serde_json::from_str::<serde_json::Value>(text)`, then `Value::get(key)`
/// and `Value::as_str` on the result.
#[verifier::external_body]
fn json_get_str(text: &str, key: &str) -> (r: Option<String>)
    ensures
        match r {
            Some(s) => json_string_field(text@, key@) == Some(s@),
            None => json_string_field(text@, key@) is None,
        },
{
    let v: serde_json::Value = serde_json::from_str(text).ok()?;
    v.get(key)?.as_str().map(String::from)
}

/// The name of the field of a Dev Containers env file that holds the path
/// of the Remote Containers IPC socket.
pub open spec fn ipc_key() -> Seq<char> {
    "REMOTE_CONTAINERS_IPC"@
}

/// The Remote Containers IPC socket path that the Dev Containers env file
/// with contents `text` names, if any.
pub fn env_file_ipc(text: &str) -> (r: Option<String>)
    ensures
        match r {
            Some(s) => json_string_field(text@, ipc_key()) == Some(s@),
            None => json_string_field(text@, ipc_key()) is None,
        },
{
    json_get_str(text, "REMOTE_CONTAINERS_IPC")
}

// ---------------------------------------------------------------------------
// PATH
// ---------------------------------------------------------------------------

/// Whether `std::path::Path` considers the paths `a` and `b` equal (it
/// compares them component by component).
pub uninterp spec fn same_path(a: Seq<char>, b: Seq<char>) -> bool;

/// `<Path as PartialEq>::eq` on `Path::new(a)` and `Path::new(b)`.
#[verifier::external_body]
fn paths_equal(a: &str, b: &str) -> (r: bool)
    ensures
        r == same_path(a@, b@),
{
    std::path::Path::new(a) == std::path::Path::new(b)
}

/// The entries of `existing` whose flag in `dup` is not set, in order.
pub open spec fn kept_entries(existing: Seq<Seq<char>>, dup: Seq<bool>) -> Seq<Seq<char>>
    decreases existing.len(),
{
    if existing.len() == 0 {
        seq![]
    } else {
        let r = kept_entries(existing.drop_last(), dup);
        if dup[existing.len() - 1] {
            r
        } else {
            r.push(existing.last())
        }
    }
}

/// `pos` lists, in increasing order, every position of `existing` whose flag
/// in `dup` is not set and only those, and `kept[m]` is the entry at `pos[m]`.
pub open spec fn unflagged_positions(
    kept: Seq<Seq<char>>,
    existing: Seq<Seq<char>>,
    dup: Seq<bool>,
    pos: Seq<int>,
) -> bool {
    &&& pos.len() == kept.len()
    &&& forall|m: int|
        0 <= m < pos.len() ==> {
            &&& 0 <= #[trigger] pos[m] < existing.len()
            &&& !dup[pos[m]]
            &&& kept[m] == existing[pos[m]]
        }
    &&& forall|m: int, n: int| 0 <= m < n < pos.len() ==> #[trigger] pos[m] < #[trigger] pos[n]
    &&& forall|j: int| 0 <= j < existing.len() && !dup[j] ==> #[trigger] pos.contains(j)
}

/// `kept` is exactly the entries of `existing` whose flag in `dup` is not
/// set, in their order in `existing`: no flagged entry is kept, whatever
/// entries precede it, and no unflagged one is lost.
pub open spec fn picks_unflagged(kept: Seq<Seq<char>>, existing: Seq<Seq<char>>, dup: Seq<bool>) -> bool {
    exists|pos: Seq<int>| #[trigger] unflagged_positions(kept, existing, dup, pos)
}

/// Dropping the flagged entries keeps exactly the unflagged ones, in order.
pub proof fn lemma_kept_entries_unflagged(existing: Seq<Seq<char>>, dup: Seq<bool>)
    requires
        existing.len() <= dup.len(),
    ensures
        picks_unflagged(kept_entries(existing, dup), existing, dup),
    decreases existing.len(),
{
    let kept = kept_entries(existing, dup);
    if existing.len() == 0 {
        assert(unflagged_positions(kept, existing, dup, Seq::<int>::empty()));
    } else {
        let n = existing.len() - 1;
        let front = existing.drop_last();
        lemma_kept_entries_unflagged(front, dup);
        let k0 = kept_entries(front, dup);
        let pos0 = choose|pos: Seq<int>| #[trigger] unflagged_positions(k0, front, dup, pos);
        if dup[n] {
            assert forall|j: int| 0 <= j < existing.len() && !dup[j] implies #[trigger] pos0.contains(j) by {
                assert(j < n);
                assert(pos0.contains(j) <== (0 <= j < front.len() && !dup[j]));
            }
            assert(unflagged_positions(kept, existing, dup, pos0));
        } else {
            let pos = pos0.push(n);
            assert(kept == k0.push(existing[n]));
            assert forall|j: int| 0 <= j < existing.len() && !dup[j] implies #[trigger] pos.contains(j) by {
                if j < n {
                    assert(pos0.contains(j) <== (0 <= j < front.len() && !dup[j]));
                    let m = choose|m: int| 0 <= m < pos0.len() && pos0[m] == j;
                    assert(pos[m] == j);
                } else {
                    assert(pos[pos.len() - 1] == j);
                }
            }
            assert forall|m: int, q: int| 0 <= m < q < pos.len() implies #[trigger] pos[m] < #[trigger] pos[q] by {
                if q < pos0.len() {
                    assert(pos0[m] < pos0[q]);
                } else {
                    assert(0 <= pos0[m] < front.len());
                }
            }
            assert forall|m: int| 0 <= m < pos.len() implies {
                &&& 0 <= #[trigger] pos[m] < existing.len()
                &&& !dup[pos[m]]
                &&& kept[m] == existing[pos[m]]
            } by {
                if m < pos0.len() {
                    assert(0 <= pos0[m] < front.len());
                }
            }
            assert(unflagged_positions(kept, existing, dup, pos));
        }
    }
}

/// `PATH` entries `existing`, without those flagged in `dup`, followed by
/// `dirs`.
pub fn append_dirs(existing: &Vec<String>, dirs: &Vec<String>, dup: &Vec<bool>) -> (r: Vec<String>)
    requires
        dup@.len() == existing@.len(),
    ensures
        views(r@) == kept_entries(views(existing@), dup@) + views(dirs@),
        r@.len() >= dirs@.len(),
        views(r@).skip(r@.len() - dirs@.len()) == views(dirs@),
        picks_unflagged(views(r@).take(r@.len() - dirs@.len()), views(existing@), dup@),
{
    let mut out: Vec<String> = Vec::new();
    let mut i: usize = 0;
    while i < existing.len()
        invariant
            i <= existing@.len(),
            dup@.len() == existing@.len(),
            views(out@) == kept_entries(views(existing@.take(i as int)), dup@),
        decreases existing@.len() - i,
    {
        let ghost before = out@;
        assert(views(existing@.take(i + 1)).drop_last() =~= views(existing@.take(i as int)));
        if !dup[i] {
            out.push(existing[i].clone());
            assert(views(out@) =~= views(before).push(existing@[i as int]@));
        }
        i = i + 1;
    }
    assert(existing@.take(existing@.len() as int) =~= existing@);
    let mut j: usize = 0;
    let ghost kept = views(out@);
    while j < dirs.len()
        invariant
            j <= dirs@.len(),
            views(out@) == kept + views(dirs@.take(j as int)),
        decreases dirs@.len() - j,
    {
        let ghost before = out@;
        out.push(dirs[j].clone());
        assert(views(out@) =~= views(before).push(dirs@[j as int]@));
        assert(views(dirs@.take(j + 1)) =~= views(dirs@.take(j as int)).push(dirs@[j as int]@));
        j = j + 1;
    }
    assert(dirs@.take(dirs@.len() as int) =~= dirs@);
    proof {
        lemma_kept_entries_unflagged(views(existing@), dup@);
        assert(views(out@).take(out@.len() - dirs@.len()) =~= kept);
        assert(views(out@).skip(out@.len() - dirs@.len()) =~= views(dirs@));
    }
    out
}

/// `p` is the same path as one of `dirs`.
pub open spec fn matches_any(p: Seq<char>, dirs: Seq<Seq<char>>) -> bool {
    exists|k: int| 0 <= k < dirs.len() && same_path(p, #[trigger] dirs[k])
}

/// The test that keeps a path which is not the same path as any of `dirs`.
pub open spec fn unlisted(dirs: Seq<Seq<char>>) -> spec_fn(Seq<char>) -> bool {
    |p: Seq<char>| !matches_any(p, dirs)
}

/// Dropping the entries of `existing` flagged as the same path as one of
/// `dirs` keeps, in order, exactly those that are the same path as none of
/// them.
pub proof fn lemma_kept_entries_unlisted(
    existing: Seq<Seq<char>>,
    dup: Seq<bool>,
    dirs: Seq<Seq<char>>,
)
    requires
        existing.len() <= dup.len(),
        forall|j: int| 0 <= j < existing.len() ==> dup[j] == matches_any(#[trigger] existing[j], dirs),
    ensures
        kept_entries(existing, dup) == existing.filter(unlisted(dirs)),
        forall|k: int|
            0 <= k < kept_entries(existing, dup).len() ==> !matches_any(
                #[trigger] kept_entries(existing, dup)[k],
                dirs,
            ),
    decreases existing.len(),
{
    let keep = unlisted(dirs);
    if existing.len() > 0 {
        let front = existing.drop_last();
        assert(forall|j: int| 0 <= j < front.len() ==> #[trigger] front[j] == existing[j]);
        lemma_kept_entries_unlisted(front, dup, dirs);
        assert(dup[existing.len() - 1] == matches_any(existing.last(), dirs));
        assert(keep(existing.last()) == !matches_any(existing.last(), dirs));
        reveal(Seq::filter);
        assert(existing.filter(keep) == if keep(existing.last()) {
            front.filter(keep).push(existing.last())
        } else {
            front.filter(keep)
        });
    }
    assert forall|k: int| 0 <= k < kept_entries(existing, dup).len() implies !matches_any(
        #[trigger] kept_entries(existing, dup)[k],
        dirs,
    ) by {
        existing.lemma_filter_pred(keep, k);
    }
}

/// Whether `p` is the same path as one of `dirs`.
fn is_listed(p: &str, dirs: &Vec<String>) -> (r: bool)
    ensures
        r == matches_any(p@, views(dirs@)),
{
    let mut k: usize = 0;
    while k < dirs.len()
        invariant
            k <= dirs@.len(),
            forall|m: int| 0 <= m < k ==> !same_path(p@, #[trigger] views(dirs@)[m]),
        decreases dirs@.len() - k,
    {
        if paths_equal(p, dirs[k].as_str()) {
            assert(same_path(p@, views(dirs@)[k as int]));
            return true;
        }
        k = k + 1;
    }
    false
}

/// The new `PATH` (as its entries) once the existing directories `dirs`
/// are appended to the entries `existing`: any entry that is the same path as
/// one of `dirs` is dropped first, so that each of them appears once, at the
/// end, in the given order. There is nothing to do (`None`) when `dirs` is
/// empty.
pub fn merge_path_dirs(existing: &Vec<String>, dirs: &Vec<String>) -> (r: Option<Vec<String>>)
    ensures
        r is None <==> dirs@.len() == 0,
        r matches Some(v) ==> views(v@) == kept_entries(
            views(existing@),
            views(existing@).map_values(|p: Seq<char>| matches_any(p, views(dirs@))),
        ) + views(dirs@),
        r matches Some(v) ==> {
            let n = v@.len() - dirs@.len();
            &&& v@.len() >= dirs@.len()
            &&& views(v@).skip(n) == views(dirs@)
            &&& views(v@).take(n) == views(existing@).filter(unlisted(views(dirs@)))
            &&& forall|k: int| 0 <= k < n ==> !matches_any(#[trigger] views(v@)[k], views(dirs@))
        },
{
    if dirs.len() == 0 {
        return None;
    }
    let ghost flags = views(existing@).map_values(|p: Seq<char>| matches_any(p, views(dirs@)));
    let mut dup: Vec<bool> = Vec::new();
    let mut i: usize = 0;
    while i < existing.len()
        invariant
            i <= existing@.len(),
            flags == views(existing@).map_values(|p: Seq<char>| matches_any(p, views(dirs@))),
            dup@ == flags.take(i as int),
        decreases existing@.len() - i,
    {
        let d = is_listed(existing[i].as_str(), dirs);
        dup.push(d);
        assert(dup@ =~= flags.take(i + 1));
        i = i + 1;
    }
    assert(dup@ =~= flags);
    let merged = append_dirs(existing, dirs, &dup);
    proof {
        let n = merged@.len() - dirs@.len();
        lemma_kept_entries_unlisted(views(existing@), dup@, views(dirs@));
        assert(views(merged@).take(n) =~= kept_entries(views(existing@), dup@));
        assert(forall|k: int| 0 <= k < n ==> #[trigger] views(merged@)[k] == views(merged@).take(n)[k]);
    }
    Some(merged)
}

} // verus!
