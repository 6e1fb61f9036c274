//! What the library's statements mean for the three tables of the schema, and
//! the laws that follow for the calls each operation sends.
//!
//! A state of the store is a `Tables`. A call the store accepted relates the
//! state before it to the state after it (`accepts`); a transaction is a begin,
//! calls, and a commit, and a transaction left without a commit rolls back
//! (`settles`). The search by tags answers with `query_rows`, a fixed sequence
//! for a fixed state and set of names, described by `answers`. Opening a store
//! and creating its schema keep the rows it holds.

use vstd::prelude::*;
use crate::file::{
    attaches, delete_file_calls, file_matches, find_calls, json_string_array, track_calls, TrackedFile,
};
use crate::repo::setup_calls;
use crate::schema::{Statement, ENABLE_FOREIGN_KEYS, TABLES};
use crate::sqlite::{SqlValueView, StoreCall};
use crate::tag::{delete_tag_calls, new_tag_calls, update_tag_calls};

verus! {

/// The rows of the three tables.
pub struct Tables {
    /// Tracked files: the path of each `(file_id, create_ts)` key.
    pub files: Map<(Seq<char>, i64), Seq<char>>,
    /// Tags: the id of each name.
    pub tags: Map<Seq<char>, i64>,
    /// Associations: `(file_id, create_ts, tag_id)`.
    pub links: Set<(Seq<char>, i64, i64)>,
}

impl Tables {
    /// Some tag has the id `id`.
    pub open spec fn has_tag_id(self, id: i64) -> bool {
        exists|n: Seq<char>| self.tags.contains_key(n) && #[trigger] self.tags[n] == id
    }

    /// The same tables with `files` replaced.
    pub open spec fn with_files(self, files: Map<(Seq<char>, i64), Seq<char>>) -> Tables {
        Tables { files, tags: self.tags, links: self.links }
    }

    /// The same tables with `tags` replaced.
    pub open spec fn with_tags(self, tags: Map<Seq<char>, i64>) -> Tables {
        Tables { files: self.files, tags, links: self.links }
    }

    /// The same tables with `links` replaced.
    pub open spec fn with_links(self, links: Set<(Seq<char>, i64, i64)>) -> Tables {
        Tables { files: self.files, tags: self.tags, links }
    }
}

/// The text of parameter `i`.
pub open spec fn text_at(params: Seq<SqlValueView>, i: int) -> Seq<char> {
    params[i]->Text_0
}

/// The integer of parameter `i`.
pub open spec fn int_at(params: Seq<SqlValueView>, i: int) -> i64 {
    params[i]->Integer_0
}

/// The parameters are texts and integers in the order `kinds` gives (true for
/// a text).
pub open spec fn shaped(params: Seq<SqlValueView>, kinds: Seq<bool>) -> bool {
    &&& params.len() == kinds.len()
    &&& forall|i: int| 0 <= i < params.len() ==> (#[trigger] params[i] is Text) == kinds[i]
}

/// Running `stmt` with `params` in `t` changes `changed` rows and leaves `t2`.
pub open spec fn run_accepts(
    t: Tables,
    stmt: Statement,
    params: Seq<SqlValueView>,
    changed: nat,
    t2: Tables,
) -> bool {
    match stmt {
        Statement::InsertTag => {
            let name = text_at(params, 0);
            &&& shaped(params, seq![true])
            &&& if t.tags.contains_key(name) {
                changed == 0 && t2 == t
            } else {
                &&& changed == 1
                &&& t2 == t.with_tags(t.tags.insert(name, t2.tags[name]))
                &&& !t.has_tag_id(t2.tags[name])
            }
        },
        Statement::RenameTag => {
            let (new_name, old_name) = (text_at(params, 0), text_at(params, 1));
            &&& shaped(params, seq![true, true])
            &&& if !t.tags.contains_key(old_name) {
                changed == 0 && t2 == t
            } else {
                &&& !(t.tags.contains_key(new_name) && new_name != old_name)
                &&& changed == 1
                &&& t2 == t.with_tags(t.tags.remove(old_name).insert(new_name, t.tags[old_name]))
            }
        },
        Statement::DeleteTag => {
            let name = text_at(params, 0);
            &&& shaped(params, seq![true])
            &&& if t.tags.contains_key(name) {
                &&& changed == 1
                &&& t2 == Tables {
                    files: t.files,
                    tags: t.tags.remove(name),
                    links: t.links.filter(|l: (Seq<char>, i64, i64)| l.2 != t.tags[name]),
                }
            } else {
                changed == 0 && t2 == t
            }
        },
        Statement::InsertFile => {
            let key = (text_at(params, 0), int_at(params, 1));
            &&& shaped(params, seq![true, false, true])
            &&& if t.files.contains_key(key) {
                changed == 0 && t2 == t
            } else {
                changed == 1 && t2 == t.with_files(t.files.insert(key, text_at(params, 2)))
            }
        },
        Statement::InsertFileTag => {
            let link = (text_at(params, 0), int_at(params, 1), int_at(params, 2));
            &&& shaped(params, seq![true, false, false])
            &&& t.files.contains_key((link.0, link.1))
            &&& t.has_tag_id(link.2)
            &&& if t.links.contains(link) {
                changed == 0 && t2 == t
            } else {
                changed == 1 && t2 == t.with_links(t.links.insert(link))
            }
        },
        Statement::UpdatePath => {
            let key = (text_at(params, 1), int_at(params, 2));
            &&& shaped(params, seq![true, true, false])
            &&& if t.files.contains_key(key) {
                changed == 1 && t2 == t.with_files(t.files.insert(key, text_at(params, 0)))
            } else {
                changed == 0 && t2 == t
            }
        },
        Statement::DeleteFile => {
            let key = (text_at(params, 0), int_at(params, 1));
            &&& shaped(params, seq![true, false])
            &&& if t.files.contains_key(key) {
                &&& changed == 1
                &&& t2 == Tables {
                    files: t.files.remove(key),
                    tags: t.tags,
                    links: t.links.filter(|l: (Seq<char>, i64, i64)| (l.0, l.1) != key),
                }
            } else {
                changed == 0 && t2 == t
            }
        },
        Statement::DeleteFileTag => {
            let link = (text_at(params, 0), int_at(params, 1), int_at(params, 2));
            &&& shaped(params, seq![true, false, false])
            &&& if t.links.contains(link) {
                changed == 1 && t2 == t.with_links(t.links.remove(link))
            } else {
                changed == 0 && t2 == t
            }
        },
        _ => false,
    }
}

/// The file record `key` carries a tag whose name is one of `names`.
pub open spec fn carries_any(t: Tables, key: (Seq<char>, i64), names: Seq<Seq<char>>) -> bool {
    exists|n: Seq<char>|
        #[trigger] names.contains(n) && t.tags.contains_key(n) && t.links.contains(
            (key.0, key.1, t.tags[n]),
        )
}

/// The names among `names` whose tag the record `key` carries.
pub open spec fn matching_names(t: Tables, key: (Seq<char>, i64), names: Seq<Seq<char>>) -> Set<Seq<char>> {
    Set::new(
        |n: Seq<char>|
            names.contains(n) && t.tags.contains_key(n) && t.links.contains((key.0, key.1, t.tags[n])),
    )
}

/// The key of a file row.
pub open spec fn row_key(row: (Seq<char>, i64, Seq<char>)) -> (Seq<char>, i64) {
    (row.0, row.1)
}

/// `rows` answer the search for `names` in `t`: each row is a tracked record,
/// with its current path, that carries one of the named tags; every such
/// record appears, once for each of the named tags it carries.
pub open spec fn answers(t: Tables, names: Seq<Seq<char>>, rows: Seq<(Seq<char>, i64, Seq<char>)>) -> bool {
    &&& forall|i: int|
        0 <= i < rows.len() ==> {
            let key = row_key(#[trigger] rows[i]);
            &&& t.files.contains_key(key)
            &&& t.files[key] == rows[i].2
            &&& carries_any(t, key, names)
        }
    &&& forall|key: (Seq<char>, i64)|
        t.files.contains_key(key) && #[trigger] carries_any(t, key, names) ==> exists|i: int|
            0 <= i < rows.len() && row_key(#[trigger] rows[i]) == key
    &&& forall|key: (Seq<char>, i64)|
        #[trigger] t.files.contains_key(key) ==> rows.filter(
            |r: (Seq<char>, i64, Seq<char>)| row_key(r) == key,
        ).len() == matching_names(t, key, names).len()
}

/// The rows the store gives for a search of `names` in `t`: the store answers
/// a fixed state and a fixed search with one fixed sequence.
pub open spec fn query_rows(t: Tables, names: Seq<Seq<char>>) -> Seq<(Seq<char>, i64, Seq<char>)> {
    choose|rows: Seq<(Seq<char>, i64, Seq<char>)>| answers(t, names, rows)
}

/// In `t`, the store answers `call` and is left as `t2`.
pub open spec fn accepts(t: Tables, call: StoreCall, t2: Tables) -> bool {
    match call {
        StoreCall::Run { stmt, params, changed } => run_accepts(t, stmt, params, changed, t2),
        StoreCall::Lookup { stmt, params, found } => {
            &&& stmt == Statement::SelectTagId
            &&& shaped(params, seq![true])
            &&& t.tags.contains_key(text_at(params, 0))
            &&& t.tags[text_at(params, 0)] == found
            &&& t2 == t
        },
        StoreCall::Fetch { stmt, params, rows } => {
            &&& stmt == Statement::SelectFilesByTags
            &&& t2 == t
            &&& forall|names: Seq<Seq<char>>|
                params == seq![SqlValueView::Text(#[trigger] json_string_array(names))] ==> rows
                    == query_rows(t, names) && answers(t, names, rows)
        },
        StoreCall::Open { .. } => t2 == t,
        StoreCall::Batch { sql } => (sql == ENABLE_FOREIGN_KEYS@ || sql == TABLES@) && t2 == t,
        _ => false,
    }
}

/// The calls `calls` take the store through the states `states`, one call
/// between each two.
pub open spec fn steps(states: Seq<Tables>, calls: Seq<StoreCall>) -> bool {
    &&& states.len() == calls.len() + 1
    &&& forall|i: int| 0 <= i < calls.len() ==> accepts(states[i], #[trigger] calls[i], states[i + 1])
}

/// The transaction `calls`, run from `t` through `states`, leaves `t2`: the
/// last state when it ends in a commit, else `t` itself.
pub open spec fn settles(t: Tables, calls: Seq<StoreCall>, states: Seq<Tables>, t2: Tables) -> bool {
    &&& calls.len() >= 1
    &&& calls[0] is Begin
    &&& states.len() >= 1
    &&& states[0] == t
    &&& if calls.last() is Commit {
        &&& steps(states, calls.subrange(1, calls.len() - 1))
        &&& t2 == states.last()
    } else {
        steps(states, calls.subrange(1, calls.len() as int)) && t2 == t
    }
}

/// Creating a tag twice gives the same id both times; the second time changes
/// nothing, and the name then has exactly that id.
pub proof fn lemma_create_tag_twice(
    t0: Tables,
    name: Seq<char>,
    id1: i64,
    id2: i64,
    calls1: Seq<StoreCall>,
    calls2: Seq<StoreCall>,
    states1: Seq<Tables>,
    states2: Seq<Tables>,
    t1: Tables,
    t2: Tables,
)
    requires
        new_tag_calls(calls1, name, id1),
        settles(t0, calls1, states1, t1),
        new_tag_calls(calls2, name, id2),
        settles(t1, calls2, states2, t2),
    ensures
        id1 == id2,
        t2 == t1,
        t1.tags.contains_key(name),
        t1.tags[name] == id1,
{
    let body1 = calls1.subrange(1, 3);
    let body2 = calls2.subrange(1, 3);
    assert(accepts(states1[0], body1[0], states1[1]));
    assert(accepts(states1[1], body1[1], states1[2]));
    assert(accepts(states2[0], body2[0], states2[1]));
    assert(accepts(states2[1], body2[1], states2[2]));
}

/// Renaming a tag that does not exist reports `None` and leaves the tables as
/// they were.
pub proof fn lemma_rename_missing_tag(
    t0: Tables,
    new_name: Seq<char>,
    previous_name: Seq<char>,
    outcome: Option<i64>,
    calls: Seq<StoreCall>,
    states: Seq<Tables>,
    t1: Tables,
)
    requires
        !t0.tags.contains_key(previous_name),
        update_tag_calls(calls, new_name, previous_name, outcome),
        settles(t0, calls, states, t1),
    ensures
        outcome is None,
        t1 == t0,
{
    if outcome is Some {
        let body = calls.subrange(1, 3);
        assert(accepts(states[0], body[0], states[1]));
    }
}

/// Renaming a tag onto a name that another tag holds never succeeds: no
/// successful outcome of the rename is consistent with the tables.
pub proof fn lemma_rename_onto_taken_name(
    t0: Tables,
    new_name: Seq<char>,
    previous_name: Seq<char>,
    outcome: Option<i64>,
    calls: Seq<StoreCall>,
    states: Seq<Tables>,
    t1: Tables,
)
    requires
        t0.tags.contains_key(new_name),
        t0.tags.contains_key(previous_name),
        new_name != previous_name,
    ensures
        !(update_tag_calls(calls, new_name, previous_name, outcome) && settles(t0, calls, states, t1)),
{
    if update_tag_calls(calls, new_name, previous_name, outcome) && settles(t0, calls, states, t1) {
        match outcome {
            None => {
                let body = calls.subrange(1, 2);
                assert(accepts(states[0], body[0], states[1]));
            },
            Some(_) => {
                let body = calls.subrange(1, 3);
                assert(accepts(states[0], body[0], states[1]));
            },
        }
    }
}

/// An operation that failed, having committed nothing, leaves the tables as
/// they were, whatever it sent.
pub proof fn lemma_failed_operation_changes_nothing(
    t0: Tables,
    calls: Seq<StoreCall>,
    states: Seq<Tables>,
    t1: Tables,
)
    requires
        forall|i: int| 0 <= i < calls.len() ==> !(#[trigger] calls[i] is Commit),
        settles(t0, calls, states, t1),
    ensures
        t1 == t0,
{
    assert(!(calls[calls.len() - 1] is Commit));
}

/// Every association refers to a tracked file and an existing tag.
pub open spec fn links_resolve(t: Tables) -> bool {
    forall|l: (Seq<char>, i64, i64)|
        #[trigger] t.links.contains(l) ==> t.files.contains_key((l.0, l.1)) && t.has_tag_id(l.2)
}

/// The schema's invariants: no two tags share an id, and every association
/// refers to a tracked file and an existing tag.
pub open spec fn well_formed(t: Tables) -> bool {
    &&& forall|a: Seq<char>, b: Seq<char>|
        t.tags.contains_key(a) && t.tags.contains_key(b) && a != b ==> #[trigger] t.tags[a]
            != #[trigger] t.tags[b]
    &&& links_resolve(t)
}

/// Every call the store accepts keeps the schema's invariants.
pub proof fn lemma_accepts_keeps_well_formed(t: Tables, call: StoreCall, t2: Tables)
    requires
        well_formed(t),
        accepts(t, call, t2),
    ensures
        well_formed(t2),
{
    if let StoreCall::Run { stmt, params, changed } = call {
        match stmt {
            Statement::InsertTag => {
                let name = text_at(params, 0);
                if !t.tags.contains_key(name) {
                    assert forall|a: Seq<char>, b: Seq<char>|
                        t2.tags.contains_key(a) && t2.tags.contains_key(b) && a != b implies #[trigger] t2.tags[a]
                            != #[trigger] t2.tags[b] by {
                        if a == name {
                            assert(t.tags.contains_key(b) && t.tags[b] == t2.tags[b]);
                        } else if b == name {
                            assert(t.tags.contains_key(a) && t.tags[a] == t2.tags[a]);
                        }
                    }
                    assert forall|l: (Seq<char>, i64, i64)|
                        #[trigger] t2.links.contains(l) implies t2.files.contains_key((l.0, l.1))
                            && t2.has_tag_id(l.2) by {
                        let m = choose|m: Seq<char>| t.tags.contains_key(m) && #[trigger] t.tags[m] == l.2;
                        assert(t2.tags.contains_key(m) && t2.tags[m] == l.2);
                    }
                }
            },
            Statement::RenameTag => {
                let (new_name, old_name) = (text_at(params, 0), text_at(params, 1));
                if t.tags.contains_key(old_name) {
                    assert forall|a: Seq<char>, b: Seq<char>|
                        t2.tags.contains_key(a) && t2.tags.contains_key(b) && a != b implies #[trigger] t2.tags[a]
                            != #[trigger] t2.tags[b] by {
                        if a == new_name {
                            assert(b != old_name && t.tags[b] == t2.tags[b]);
                        } else if b == new_name {
                            assert(a != old_name && t.tags[a] == t2.tags[a]);
                        }
                    }
                    assert forall|l: (Seq<char>, i64, i64)|
                        #[trigger] t2.links.contains(l) implies t2.files.contains_key((l.0, l.1))
                            && t2.has_tag_id(l.2) by {
                        let m = choose|m: Seq<char>| t.tags.contains_key(m) && #[trigger] t.tags[m] == l.2;
                        if m == old_name {
                            assert(t2.tags.contains_key(new_name) && t2.tags[new_name] == l.2);
                        } else {
                            assert(t2.tags.contains_key(m) && t2.tags[m] == l.2);
                        }
                    }
                }
            },
            Statement::DeleteTag => {
                let name = text_at(params, 0);
                if t.tags.contains_key(name) {
                    assert forall|l: (Seq<char>, i64, i64)|
                        #[trigger] t2.links.contains(l) implies t2.files.contains_key((l.0, l.1))
                            && t2.has_tag_id(l.2) by {
                        let m = choose|m: Seq<char>| t.tags.contains_key(m) && #[trigger] t.tags[m] == l.2;
                        assert(m != name);
                        assert(t2.tags.contains_key(m) && t2.tags[m] == l.2);
                    }
                }
            },
            Statement::InsertFile => {
                let key = (text_at(params, 0), int_at(params, 1));
                if !t.files.contains_key(key) {
                    assert forall|l: (Seq<char>, i64, i64)|
                        #[trigger] t2.links.contains(l) implies t2.files.contains_key((l.0, l.1))
                            && t2.has_tag_id(l.2) by {
                        assert(t.files.contains_key((l.0, l.1)));
                        let m = choose|m: Seq<char>| t.tags.contains_key(m) && #[trigger] t.tags[m] == l.2;
                        assert(t2.tags.contains_key(m) && t2.tags[m] == l.2);
                    }
                }
            },
            Statement::UpdatePath => {
                let key = (text_at(params, 1), int_at(params, 2));
                if t.files.contains_key(key) {
                    assert forall|l: (Seq<char>, i64, i64)|
                        #[trigger] t2.links.contains(l) implies t2.files.contains_key((l.0, l.1))
                            && t2.has_tag_id(l.2) by {
                        assert(t.files.contains_key((l.0, l.1)));
                        let m = choose|m: Seq<char>| t.tags.contains_key(m) && #[trigger] t.tags[m] == l.2;
                        assert(t2.tags.contains_key(m) && t2.tags[m] == l.2);
                    }
                }
            },
            Statement::DeleteFile => {
                let key = (text_at(params, 0), int_at(params, 1));
                if t.files.contains_key(key) {
                    assert forall|l: (Seq<char>, i64, i64)|
                        #[trigger] t2.links.contains(l) implies t2.files.contains_key((l.0, l.1))
                            && t2.has_tag_id(l.2) by {
                        assert(t.links.contains(l));
                        let m = choose|m: Seq<char>| t.tags.contains_key(m) && #[trigger] t.tags[m] == l.2;
                        assert(t2.tags.contains_key(m) && t2.tags[m] == l.2);
                    }
                }
            },
            Statement::InsertFileTag => {
                assert forall|l: (Seq<char>, i64, i64)|
                    #[trigger] t2.links.contains(l) implies t2.files.contains_key((l.0, l.1))
                        && t2.has_tag_id(l.2) by {
                    let m = choose|m: Seq<char>| t.tags.contains_key(m) && #[trigger] t.tags[m] == l.2;
                    assert(t2.tags.contains_key(m) && t2.tags[m] == l.2);
                }
            },
            Statement::DeleteFileTag => {
                assert forall|l: (Seq<char>, i64, i64)|
                    #[trigger] t2.links.contains(l) implies t2.files.contains_key((l.0, l.1))
                        && t2.has_tag_id(l.2) by {
                    assert(t.links.contains(l));
                    let m = choose|m: Seq<char>| t.tags.contains_key(m) && #[trigger] t.tags[m] == l.2;
                    assert(t2.tags.contains_key(m) && t2.tags[m] == l.2);
                }
            },
            _ => {},
        }
    }
}

/// A run of accepted calls keeps the schema's invariants.
pub proof fn lemma_steps_keep_well_formed(states: Seq<Tables>, calls: Seq<StoreCall>)
    requires
        steps(states, calls),
        well_formed(states[0]),
    ensures
        forall|i: int| 0 <= i < states.len() ==> well_formed(#[trigger] states[i]),
    decreases calls.len(),
{
    if calls.len() > 0 {
        let n = calls.len() as int;
        lemma_steps_prefix(states, calls, n - 1);
        lemma_steps_keep_well_formed(states.subrange(0, n), calls.subrange(0, n - 1));
        assert(well_formed(states.subrange(0, n)[n - 1]));
        assert(accepts(states[n - 1], calls[n - 1], states[n]));
        lemma_accepts_keeps_well_formed(states[n - 1], calls[n - 1], states[n]);
        assert forall|i: int| 0 <= i < states.len() implies well_formed(#[trigger] states[i]) by {
            if i < n {
                assert(states.subrange(0, n)[i] == states[i]);
            }
        }
    }
}

/// After a file record is deleted, no association refers to it.
pub proof fn lemma_delete_file_cascades(
    t0: Tables,
    file_id: Seq<char>,
    create_ts: i64,
    calls: Seq<StoreCall>,
    states: Seq<Tables>,
    t1: Tables,
)
    requires
        links_resolve(t0),
        delete_file_calls(calls, file_id, create_ts),
        settles(t0, calls, states, t1),
    ensures
        !t1.files.contains_key((file_id, create_ts)),
        forall|tag_id: i64| !t1.links.contains((file_id, create_ts, tag_id)),
{
    let body = calls.subrange(1, 2);
    assert(accepts(states[0], body[0], states[1]));
    let key = (file_id, create_ts);
    if t0.files.contains_key(key) {
        assert forall|tag_id: i64| !t1.links.contains((file_id, create_ts, tag_id)) by {
            let l = (file_id, create_ts, tag_id);
            assert((l.0, l.1) == key);
        }
    } else {
        assert forall|tag_id: i64| !t1.links.contains((file_id, create_ts, tag_id)) by {
            let l = (file_id, create_ts, tag_id);
            if t1.links.contains(l) {
                assert(t0.files.contains_key((l.0, l.1)));
            }
        }
    }
}

/// Deleting a tag removes exactly the associations that refer to it: every file
/// record stays, with its other tags.
pub proof fn lemma_delete_tag_cascades(
    t0: Tables,
    name: Seq<char>,
    count: usize,
    calls: Seq<StoreCall>,
    states: Seq<Tables>,
    t1: Tables,
)
    requires
        t0.tags.contains_key(name),
        delete_tag_calls(calls, name, count),
        settles(t0, calls, states, t1),
    ensures
        count == 1,
        !t1.tags.contains_key(name),
        t1.files == t0.files,
        forall|l: (Seq<char>, i64, i64)|
            #[trigger] t1.links.contains(l) <==> t0.links.contains(l) && l.2 != t0.tags[name],
{
    let body = calls.subrange(1, 2);
    assert(accepts(states[0], body[0], states[1]));
}

/// The first `k + 1` states drive the first `k` calls.
proof fn lemma_steps_prefix(states: Seq<Tables>, calls: Seq<StoreCall>, k: int)
    requires
        steps(states, calls),
        0 <= k <= calls.len(),
    ensures
        steps(states.subrange(0, k + 1), calls.subrange(0, k)),
{
    assert forall|i: int| 0 <= i < k implies accepts(
        states.subrange(0, k + 1)[i],
        #[trigger] calls.subrange(0, k)[i],
        states.subrange(0, k + 1)[i + 1],
    ) by {
        assert(accepts(states[i], calls[i], states[i + 1]));
    }
}

/// The states from the `k`-th on drive the calls from the `k`-th on.
proof fn lemma_steps_suffix(states: Seq<Tables>, calls: Seq<StoreCall>, k: int)
    requires
        steps(states, calls),
        0 <= k <= calls.len(),
    ensures
        steps(states.subrange(k, states.len() as int), calls.subrange(k, calls.len() as int)),
{
    assert forall|i: int| 0 <= i < calls.len() - k implies accepts(
        states.subrange(k, states.len() as int)[i],
        #[trigger] calls.subrange(k, calls.len() as int)[i],
        states.subrange(k, states.len() as int)[i + 1],
    ) by {
        assert(accepts(states[k + i], calls[k + i], states[k + i + 1]));
    }
}

/// Attaching tags to a tracked file keeps its files and the tags and
/// associations there were, and leaves each name a tag attached to the file.
proof fn lemma_attaches_effect(
    file_id: Seq<char>,
    create_ts: i64,
    names: Seq<Seq<char>>,
    calls: Seq<StoreCall>,
    states: Seq<Tables>,
)
    requires
        attaches(file_id, create_ts, names, calls),
        steps(states, calls),
        states[0].files.contains_key((file_id, create_ts)),
    ensures
        states.last().files == states[0].files,
        forall|n: Seq<char>|
            #[trigger] states[0].tags.contains_key(n) ==> states.last().tags.contains_key(n)
                && states.last().tags[n] == states[0].tags[n],
        states[0].links.subset_of(states.last().links),
        forall|i: int|
            0 <= i < names.len() ==> states.last().tags.contains_key(#[trigger] names[i])
                && states.last().links.contains((file_id, create_ts, states.last().tags[names[i]])),
        forall|n: Seq<char>|
            #[trigger] states.last().tags.contains_key(n) ==> states[0].tags.contains_key(n)
                || names.contains(n),
        forall|l: (Seq<char>, i64, i64)|
            #[trigger] states.last().links.contains(l) ==> states[0].links.contains(l) || (l.0
                == file_id && l.1 == create_ts && exists|i: int|
                0 <= i < names.len() && l.2 == states.last().tags[#[trigger] names[i]]),
    decreases names.len(),
{
    if names.len() > 0 {
        let n = calls.len() as int;
        lemma_steps_prefix(states, calls, n - 3);
        let pre = states.subrange(0, n - 2);
        lemma_attaches_effect(file_id, create_ts, names.drop_last(), calls.subrange(0, n - 3), pre);
        assert(pre.last() == states[n - 3]);
        assert(calls.subrange(n - 3, n - 1)[0] == calls[n - 3]);
        assert(calls.subrange(n - 3, n - 1)[1] == calls[n - 2]);
        assert(accepts(states[n - 3], calls[n - 3], states[n - 2]));
        assert(accepts(states[n - 2], calls[n - 2], states[n - 1]));
        assert(accepts(states[n - 1], calls[n - 1], states[n]));
        assert forall|i: int|
            0 <= i < names.len() implies states.last().tags.contains_key(#[trigger] names[i])
                && states.last().links.contains(
                (file_id, create_ts, states.last().tags[names[i]]),
            ) by {
            if i < names.len() - 1 {
                assert(names.drop_last()[i] == names[i]);
            }
        }
        let last = names.len() - 1;
        assert(names[last] == names.last());
        assert forall|m: Seq<char>|
            #[trigger] states.last().tags.contains_key(m) implies states[0].tags.contains_key(m)
                || names.contains(m) by {
            if m != names.last() {
                assert(pre.last().tags.contains_key(m));
                if names.drop_last().contains(m) {
                    let j = choose|j: int| 0 <= j < names.drop_last().len() && names.drop_last()[j] == m;
                    assert(names[j] == m);
                }
            }
        }
        assert forall|l: (Seq<char>, i64, i64)|
            #[trigger] states.last().links.contains(l) implies states[0].links.contains(l) || (l.0
                == file_id && l.1 == create_ts && exists|i: int|
                0 <= i < names.len() && l.2 == states.last().tags[#[trigger] names[i]]) by {
            if pre.last().links.contains(l) {
                if !states[0].links.contains(l) {
                    let j = choose|j: int|
                        0 <= j < names.drop_last().len() && l.2 == pre.last().tags[#[trigger] names.drop_last()[j]];
                    assert(names.drop_last()[j] == names[j]);
                    assert(pre.last().tags.contains_key(names[j]));
                    assert(l.2 == states.last().tags[names[j]]);
                }
            } else {
                assert(l.2 == states.last().tags[names[last]]);
            }
        }
    }
}

/// Attaching tags that are all already attached to the file changes nothing.
proof fn lemma_attaches_again(
    file_id: Seq<char>,
    create_ts: i64,
    names: Seq<Seq<char>>,
    calls: Seq<StoreCall>,
    states: Seq<Tables>,
)
    requires
        attaches(file_id, create_ts, names, calls),
        steps(states, calls),
        states[0].files.contains_key((file_id, create_ts)),
        forall|i: int|
            0 <= i < names.len() ==> states[0].tags.contains_key(#[trigger] names[i])
                && states[0].links.contains((file_id, create_ts, states[0].tags[names[i]])),
    ensures
        states.last() == states[0],
    decreases names.len(),
{
    if names.len() > 0 {
        let n = calls.len() as int;
        lemma_steps_prefix(states, calls, n - 3);
        let pre = states.subrange(0, n - 2);
        assert forall|i: int|
            0 <= i < names.drop_last().len() implies pre[0].tags.contains_key(
                #[trigger] names.drop_last()[i],
            ) && pre[0].links.contains((file_id, create_ts, pre[0].tags[names.drop_last()[i]])) by {
            assert(names.drop_last()[i] == names[i]);
        }
        lemma_attaches_again(file_id, create_ts, names.drop_last(), calls.subrange(0, n - 3), pre);
        assert(pre.last() == states[n - 3]);
        assert(calls.subrange(n - 3, n - 1)[0] == calls[n - 3]);
        assert(calls.subrange(n - 3, n - 1)[1] == calls[n - 2]);
        assert(names.last() == names[names.len() - 1]);
        assert(accepts(states[n - 3], calls[n - 3], states[n - 2]));
        assert(accepts(states[n - 2], calls[n - 2], states[n - 1]));
        assert(accepts(states[n - 1], calls[n - 1], states[n]));
    }
}

/// Tracking a file twice with the same arguments: the second time changes
/// nothing. After the first, the record exists and carries every named tag.
pub proof fn lemma_track_twice(
    t0: Tables,
    file_id: Seq<char>,
    create_ts: i64,
    path: Seq<char>,
    names: Seq<Seq<char>>,
    calls1: Seq<StoreCall>,
    calls2: Seq<StoreCall>,
    states1: Seq<Tables>,
    states2: Seq<Tables>,
    t1: Tables,
    t2: Tables,
)
    requires
        track_calls(calls1, file_id, create_ts, path, names),
        settles(t0, calls1, states1, t1),
        track_calls(calls2, file_id, create_ts, path, names),
        settles(t1, calls2, states2, t2),
    ensures
        t2 == t1,
        t1.files.contains_key((file_id, create_ts)),
        forall|i: int|
            0 <= i < names.len() ==> t1.tags.contains_key(#[trigger] names[i])
                && t1.links.contains((file_id, create_ts, t1.tags[names[i]])),
{
    let body1 = calls1.subrange(1, calls1.len() - 1);
    let body2 = calls2.subrange(1, calls2.len() - 1);
    assert(accepts(states1[0], body1[0], states1[1]));
    lemma_steps_suffix(states1, body1, 1);
    lemma_attaches_effect(
        file_id,
        create_ts,
        names,
        body1.subrange(1, body1.len() as int),
        states1.subrange(1, states1.len() as int),
    );
    assert(accepts(states2[0], body2[0], states2[1]));
    lemma_steps_suffix(states2, body2, 1);
    lemma_attaches_again(
        file_id,
        create_ts,
        names,
        body2.subrange(1, body2.len() as int),
        states2.subrange(1, states2.len() as int),
    );
}

/// The key of a file record.
pub open spec fn file_key_of(f: TrackedFile) -> (Seq<char>, i64) {
    (f.identifier.id_view(), f.identifier.ts_view())
}

/// A search by tags changes nothing, and gives exactly the tracked records that
/// carry at least one of the named tags (any one qualifies), each with its
/// current path.
pub proof fn lemma_search_is_union(
    t0: Tables,
    names: Seq<Seq<char>>,
    files: Seq<TrackedFile>,
    calls: Seq<StoreCall>,
    states: Seq<Tables>,
    t1: Tables,
)
    requires
        find_calls(calls, names, files),
        settles(t0, calls, states, t1),
    ensures
        t1 == t0,
        forall|k: int|
            0 <= k < files.len() ==> {
                let key = file_key_of(#[trigger] files[k]);
                &&& t0.files.contains_key(key)
                &&& files[k].path@ == t0.files[key]
                &&& carries_any(t0, key, names)
            },
        forall|key: (Seq<char>, i64)|
            t0.files.contains_key(key) && #[trigger] carries_any(t0, key, names) ==> exists|k: int|
                0 <= k < files.len() && file_key_of(#[trigger] files[k]) == key,
{
    let body = calls.subrange(1, 2);
    assert(accepts(states[0], body[0], states[1]));
    let rows = calls[1]->rows;
    assert(rows == query_rows(t0, names));
    assert(answers(t0, names, rows));
    assert forall|k: int| 0 <= k < files.len() implies {
        let key = file_key_of(#[trigger] files[k]);
        &&& t0.files.contains_key(key)
        &&& files[k].path@ == t0.files[key]
        &&& carries_any(t0, key, names)
    } by {
        assert(file_matches(files[k], rows[k]));
        assert(row_key(rows[k]) == file_key_of(files[k]));
    }
    assert forall|key: (Seq<char>, i64)|
        t0.files.contains_key(key) && #[trigger] carries_any(t0, key, names) implies exists|k: int|
            0 <= k < files.len() && file_key_of(#[trigger] files[k]) == key by {
        let i = choose|i: int| 0 <= i < rows.len() && row_key(#[trigger] rows[i]) == key;
        assert(file_matches(files[i], rows[i]));
        assert(file_key_of(files[i]) == key);
    }
}

/// Two searches for the same names on the same tables give the same records,
/// with the same paths, in the same order.
pub proof fn lemma_search_is_deterministic(
    t0: Tables,
    names: Seq<Seq<char>>,
    files1: Seq<TrackedFile>,
    files2: Seq<TrackedFile>,
    calls1: Seq<StoreCall>,
    calls2: Seq<StoreCall>,
    states1: Seq<Tables>,
    states2: Seq<Tables>,
    t1: Tables,
    t2: Tables,
)
    requires
        find_calls(calls1, names, files1),
        settles(t0, calls1, states1, t1),
        find_calls(calls2, names, files2),
        settles(t1, calls2, states2, t2),
    ensures
        t2 == t0,
        files1.len() == files2.len(),
        forall|k: int|
            0 <= k < files1.len() ==> file_key_of(#[trigger] files1[k]) == file_key_of(files2[k])
                && files1[k].path@ == files2[k].path@,
{
    let body1 = calls1.subrange(1, 2);
    let body2 = calls2.subrange(1, 2);
    assert(accepts(states1[0], body1[0], states1[1]));
    assert(accepts(states2[0], body2[0], states2[1]));
    assert(calls1[1]->rows == query_rows(t0, names));
    assert(calls2[1]->rows == query_rows(t0, names));
    assert forall|k: int| 0 <= k < files1.len() implies file_key_of(#[trigger] files1[k]) == file_key_of(
        files2[k],
    ) && files1[k].path@ == files2[k].path@ by {
        assert(file_matches(files1[k], calls1[1]->rows[k]));
        assert(file_matches(files2[k], calls2[1]->rows[k]));
    }
}

/// Opening a store keeps the rows it holds: turning on foreign keys and
/// creating the tables that are missing change no row.
pub proof fn lemma_setup_keeps_rows(path: Seq<char>, states: Seq<Tables>)
    requires
        steps(states, setup_calls(path)),
    ensures
        states.last() == states[0],
{
    assert(accepts(states[0], setup_calls(path)[0], states[1]));
    assert(accepts(states[1], setup_calls(path)[1], states[2]));
    assert(accepts(states[2], setup_calls(path)[2], states[3]));
}

/// What one tracking of `(file_id, create_ts)` with the tags `names` leaves: the
/// record exists (keeping its path if it existed), no other record changes,
/// tags only gain the names with their ids kept, and associations only gain
/// those of the record with the named tags, each of which it then carries.
pub proof fn lemma_track_effect(
    t0: Tables,
    file_id: Seq<char>,
    create_ts: i64,
    path: Seq<char>,
    names: Seq<Seq<char>>,
    calls: Seq<StoreCall>,
    states: Seq<Tables>,
    t1: Tables,
)
    requires
        well_formed(t0),
        track_calls(calls, file_id, create_ts, path, names),
        settles(t0, calls, states, t1),
    ensures
        well_formed(t1),
        t1.files == (if t0.files.contains_key((file_id, create_ts)) {
            t0.files
        } else {
            t0.files.insert((file_id, create_ts), path)
        }),
        forall|n: Seq<char>|
            #[trigger] t0.tags.contains_key(n) ==> t1.tags.contains_key(n) && t1.tags[n] == t0.tags[n],
        forall|n: Seq<char>| #[trigger] t1.tags.contains_key(n) ==> t0.tags.contains_key(n) || names.contains(n),
        t0.links.subset_of(t1.links),
        forall|i: int|
            0 <= i < names.len() ==> t1.tags.contains_key(#[trigger] names[i]) && t1.links.contains(
                (file_id, create_ts, t1.tags[names[i]]),
            ),
        forall|l: (Seq<char>, i64, i64)|
            #[trigger] t1.links.contains(l) ==> t0.links.contains(l) || (l.0 == file_id && l.1
                == create_ts && exists|i: int| 0 <= i < names.len() && l.2 == t1.tags[#[trigger] names[i]]),
{
    let body = calls.subrange(1, calls.len() - 1);
    assert(accepts(states[0], body[0], states[1]));
    lemma_steps_keep_well_formed(states, body);
    lemma_steps_suffix(states, body, 1);
    lemma_attaches_effect(
        file_id,
        create_ts,
        names,
        body.subrange(1, body.len() as int),
        states.subrange(1, states.len() as int),
    );
    assert(well_formed(states[states.len() - 1]));
}

/// Tracking A with the tags x and y and B with y and z, from empty tables: a
/// search for x gives exactly A, and a search for y gives exactly A and B.
pub proof fn lemma_search_scenario(
    a: (Seq<char>, i64),
    b: (Seq<char>, i64),
    path_a: Seq<char>,
    path_b: Seq<char>,
    x: Seq<char>,
    y: Seq<char>,
    z: Seq<char>,
    calls: Seq<Seq<StoreCall>>,
    states: Seq<Seq<Tables>>,
    tables: Seq<Tables>,
    files_x: Seq<TrackedFile>,
    files_y: Seq<TrackedFile>,
)
    requires
        a != b,
        x != y,
        y != z,
        x != z,
        calls.len() == 4,
        states.len() == 4,
        tables.len() == 5,
        tables[0] == (Tables { files: Map::empty(), tags: Map::empty(), links: Set::empty() }),
        track_calls(calls[0], a.0, a.1, path_a, seq![x, y]),
        settles(tables[0], calls[0], states[0], tables[1]),
        track_calls(calls[1], b.0, b.1, path_b, seq![y, z]),
        settles(tables[1], calls[1], states[1], tables[2]),
        find_calls(calls[2], seq![x], files_x),
        settles(tables[2], calls[2], states[2], tables[3]),
        find_calls(calls[3], seq![y], files_y),
        settles(tables[3], calls[3], states[3], tables[4]),
    ensures
        forall|k: int| 0 <= k < files_x.len() ==> file_key_of(#[trigger] files_x[k]) == a,
        exists|k: int| 0 <= k < files_x.len() && file_key_of(#[trigger] files_x[k]) == a,
        forall|k: int|
            0 <= k < files_y.len() ==> file_key_of(#[trigger] files_y[k]) == a || file_key_of(files_y[k])
                == b,
        exists|k: int| 0 <= k < files_y.len() && file_key_of(#[trigger] files_y[k]) == a,
        exists|k: int| 0 <= k < files_y.len() && file_key_of(#[trigger] files_y[k]) == b,
{
    let (t0, t1, t2) = (tables[0], tables[1], tables[2]);
    let (xy, yz, sx, sy) = (seq![x, y], seq![y, z], seq![x], seq![y]);
    assert(well_formed(t0));
    lemma_track_effect(t0, a.0, a.1, path_a, xy, calls[0], states[0], t1);
    lemma_track_effect(t1, b.0, b.1, path_b, yz, calls[1], states[1], t2);
    lemma_search_is_union(t2, sx, files_x, calls[2], states[2], tables[3]);
    lemma_search_is_union(tables[3], sy, files_y, calls[3], states[3], tables[4]);
    assert(xy[0] == x && xy[1] == y);
    assert(yz[0] == y && yz[1] == z);
    assert(sx[0] == x && sy[0] == y);
    assert(t2.tags[x] != t2.tags[y] && t2.tags[x] != t2.tags[z]);
    assert forall|key: (Seq<char>, i64)| #[trigger] carries_any(t2, key, sx) implies key == a by {
        let n = choose|n: Seq<char>|
            #[trigger] sx.contains(n) && t2.tags.contains_key(n) && t2.links.contains((key.0, key.1, t2.tags[n]));
        let l = (key.0, key.1, t2.tags[x]);
        if !t1.links.contains(l) {
            let i = choose|i: int| 0 <= i < yz.len() && l.2 == t2.tags[#[trigger] yz[i]];
        } else if !t0.links.contains(l) {
            let i = choose|i: int| 0 <= i < xy.len() && l.2 == t1.tags[#[trigger] xy[i]];
            assert(l.0 == a.0 && l.1 == a.1);
        }
    }
    assert(sx.contains(x));
    assert(sy.contains(y));
    assert(carries_any(t2, a, sx));
    assert(carries_any(t2, a, sy));
    assert(carries_any(t2, b, sy));
    assert forall|key: (Seq<char>, i64)| #[trigger] carries_any(t2, key, sy) implies key == a
        || key == b by {
        let n = choose|n: Seq<char>|
            #[trigger] sy.contains(n) && t2.tags.contains_key(n) && t2.links.contains((key.0, key.1, t2.tags[n]));
        let l = (key.0, key.1, t2.tags[y]);
        if !t1.links.contains(l) {
            assert(l.0 == b.0 && l.1 == b.1);
        } else if !t0.links.contains(l) {
            assert(l.0 == a.0 && l.1 == a.1);
        }
    }
    assert(t2.files.contains_key(b));
}

/// Tracking a file twice with the two tags `n1` and `n2`, from empty tables,
/// leaves exactly one record and exactly two associations.
pub proof fn lemma_track_twice_counts(
    file_id: Seq<char>,
    create_ts: i64,
    path: Seq<char>,
    n1: Seq<char>,
    n2: Seq<char>,
    calls1: Seq<StoreCall>,
    calls2: Seq<StoreCall>,
    states1: Seq<Tables>,
    states2: Seq<Tables>,
    t0: Tables,
    t1: Tables,
    t2: Tables,
)
    requires
        n1 != n2,
        t0 == (Tables { files: Map::empty(), tags: Map::empty(), links: Set::empty() }),
        track_calls(calls1, file_id, create_ts, path, seq![n1, n2]),
        settles(t0, calls1, states1, t1),
        track_calls(calls2, file_id, create_ts, path, seq![n1, n2]),
        settles(t1, calls2, states2, t2),
    ensures
        t2 == t1,
        t2.files.dom() == set![(file_id, create_ts)],
        t2.links == set![(file_id, create_ts, t2.tags[n1]), (file_id, create_ts, t2.tags[n2])],
        t2.tags[n1] != t2.tags[n2],
{
    let names = seq![n1, n2];
    assert(names[0] == n1 && names[1] == n2);
    assert(well_formed(t0));
    lemma_track_effect(t0, file_id, create_ts, path, names, calls1, states1, t1);
    lemma_track_twice(t0, file_id, create_ts, path, names, calls1, calls2, states1, states2, t1, t2);
    assert(t1.files.dom() =~= set![(file_id, create_ts)]);
    assert forall|l: (Seq<char>, i64, i64)|
        t1.links.contains(l) <==> set![(file_id, create_ts, t1.tags[n1]), (file_id, create_ts, t1.tags[n2])].contains(
            l,
        ) by {
        if t1.links.contains(l) {
            let i = choose|i: int| 0 <= i < names.len() && l.2 == t1.tags[#[trigger] names[i]];
        }
    }
    assert(t1.links =~= set![(file_id, create_ts, t1.tags[n1]), (file_id, create_ts, t1.tags[n2])]);
}

} // verus!
