//! Properties that hold of the summary grammar and the classification.

use vstd::prelude::*;
use vstd::string::*;
use crate::classify::{classify_model, stream_model, ClassificationModel};
use crate::report::{
    apply_entry, line_model, split_percent, tables_consistent, tables_of,
    EntryModel, TablesModel,
};
use crate::text::{
    after, first_index, last_index, lemma_find_below_none, lemma_find_below_occurs, lemma_find_from_at,
    lemma_find_from_none, occurs_at,
};

verus! {

proof fn lemma_mode_path(marker: Seq<char>, mode: Seq<char>, path: Seq<char>)
    requires
        forall|i: int| 0 <= i < mode.len() ==> mode[i] != ' ',
    ensures
        ({
            let ln = marker + mode + " "@ + path;
            &&& occurs_at(ln, marker, 0)
            &&& after(ln, marker.len() as int) == mode + " "@ + path
            &&& first_index(mode + " "@ + path, " "@) == Some(mode.len() as int)
            &&& after(mode + " "@ + path, mode.len() + 1 as int) == path
        }),
{
    reveal_strlit(" ");
    let ln = marker + mode + " "@ + path;
    let rest = mode + " "@ + path;
    assert(ln.subrange(0, marker.len() as int) =~= marker);
    assert(after(ln, marker.len() as int) =~= rest);
    assert(rest.subrange(mode.len() as int, mode.len() + 1 as int) =~= " "@);
    assert forall|j: int| 0 <= j < mode.len() implies !occurs_at(rest, " "@, j) by {
        assert(rest.subrange(j, j + 1)[0] == mode[j]);
    }
    lemma_find_from_at(rest, " "@, 0, mode.len() as int);
    assert(after(rest, mode.len() + 1 as int) =~= path);
}

/// A creation line `create mode <mode> <path>`, whose mode field has no
/// space, enters its path into the created set, and the path then classifies
/// as created.
pub proof fn law_creation_line(t: TablesModel, mode: Seq<char>, path: Seq<char>)
    requires
        forall|i: int| 0 <= i < mode.len() ==> mode[i] != ' ',
    ensures
        line_model("create mode "@ + mode + " "@ + path) == EntryModel::Created(path),
        apply_entry(t, line_model("create mode "@ + mode + " "@ + path)).created.contains(path),
        classify_model(apply_entry(t, line_model("create mode "@ + mode + " "@ + path)), path)
            == ClassificationModel::Created,
{
    lemma_mode_path("create mode "@, mode, path);
}

/// A deletion line `delete mode <mode> <path>`, whose mode field has no
/// space, enters its path into the deleted set; the path then classifies as
/// deleted unless it was also entered as created.
pub proof fn law_deletion_line(t: TablesModel, mode: Seq<char>, path: Seq<char>)
    requires
        forall|i: int| 0 <= i < mode.len() ==> mode[i] != ' ',
    ensures
        line_model("delete mode "@ + mode + " "@ + path) == EntryModel::Deleted(path),
        apply_entry(t, line_model("delete mode "@ + mode + " "@ + path)).deleted.contains(path),
        !t.created.contains(path) ==> classify_model(
            apply_entry(t, line_model("delete mode "@ + mode + " "@ + path)),
            path,
        ) == ClassificationModel::Deleted,
{
    reveal_strlit("create mode ");
    reveal_strlit("delete mode ");
    lemma_mode_path("delete mode "@, mode, path);
    let ln = "delete mode "@ + mode + " "@ + path;
    assert(ln[0] == 'd');
    assert(!occurs_at(ln, "create mode "@, 0)) by {
        if occurs_at(ln, "create mode "@, 0) {
            assert(ln.subrange(0, 12)[0] == ln[0]);
        }
    }
}

/// The rename that a line enters holds in both directions at once: the
/// origin maps to the destination and the destination back to the origin.
pub proof fn law_rename_inverse(t: TablesModel, ln: Seq<char>)
    ensures
        line_model(ln) matches EntryModel::Renamed(o, d, _) ==> {
            &&& apply_entry(t, line_model(ln)).renamed_to.contains_key(o)
            &&& apply_entry(t, line_model(ln)).renamed_to[o] == d
            &&& apply_entry(t, line_model(ln)).renamed_from.contains_key(d)
            &&& apply_entry(t, line_model(ln)).renamed_from[d] == o
        },
{
}

/// Every path that has a percentage in the tables of a summary is a side of
/// a rename in them.
pub proof fn law_percent_belongs_to_rename(es: Seq<EntryModel>)
    ensures
        tables_consistent(tables_of(es)),
    decreases es.len(),
{
    if es.len() > 0 {
        law_percent_belongs_to_rename(es.drop_last());
    }
}

/// A created path classifies as created, whatever else the tables hold of it.
pub proof fn law_created_first(t: TablesModel, p: Seq<char>)
    requires
        t.created.contains(p),
    ensures
        classify_model(t, p) == ClassificationModel::Created,
{
}

/// A rename line with no `)` after its marker has no percentage: it enters
/// the rename in both directions and no percentage, so a side of it that had
/// no percentage and is neither created nor deleted classifies as unchanged.
pub proof fn law_rename_without_percent(t: TablesModel, ln: Seq<char>)
    requires
        occurs_at(ln, "rename "@, 0),
        forall|i: int| "rename "@.len() <= i < ln.len() ==> ln[i] != ')',
    ensures
        line_model(ln) matches EntryModel::Renamed(o, d, pct) ==> {
            let t2 = apply_entry(t, line_model(ln));
            &&& pct.len() == 0
            &&& t2.percent_of == t.percent_of
            &&& t2.renamed_to[o] == d
            &&& t2.renamed_from[d] == o
            &&& (!t.percent_of.contains_key(o) && !t.created.contains(o) && !t.deleted.contains(o))
                ==> classify_model(t2, o) == ClassificationModel::Unchanged
            &&& (!t.percent_of.contains_key(d) && !t.created.contains(d) && !t.deleted.contains(d))
                ==> classify_model(t2, d) == ClassificationModel::Unchanged
        },
{
    reveal_strlit(")");
    reveal_strlit("rename ");
    let rest = after(ln, "rename "@.len() as int);
    assert forall|j: int| j < rest.len() + 1 implies !occurs_at(rest, ")"@, j) by {
        if occurs_at(rest, ")"@, j) {
            assert(rest.subrange(j, j + 1)[0] == rest[j]);
            assert(rest[j] == ln[j + 7]);
        }
    }
    lemma_find_below_none(rest, ")"@, rest.len() as int);
    assert(last_index(rest, ")"@) is None);
    assert(split_percent(rest).1 == Seq::<char>::empty());
}

/// Classifying the same path stream against the same tables twice gives the
/// same statuses both times.
pub proof fn law_classification_repeatable(
    t: TablesModel,
    lines: Seq<Seq<char>>,
    first: Seq<ClassificationModel>,
    second: Seq<ClassificationModel>,
)
    requires
        first == stream_model(t, lines),
        second == stream_model(t, lines),
    ensures
        first == second,
{
}

/// A rename line without ` => ` after its marker says nothing: the tables
/// stay as they were.
pub proof fn law_malformed_rename(t: TablesModel, ln: Seq<char>)
    requires
        occurs_at(ln, "rename "@, 0),
        forall|i: int| !occurs_at(after(ln, "rename "@.len() as int), " => "@, i),
    ensures
        line_model(ln) == EntryModel::Other,
        apply_entry(t, line_model(ln)) == t,
{
    reveal_strlit("rename ");
    reveal_strlit("create mode ");
    reveal_strlit("delete mode ");
    assert(ln.subrange(0, 7)[0] == ln[0]);
    if occurs_at(ln, "create mode "@, 0) {
        assert(ln.subrange(0, 12)[0] == ln[0]);
    }
    if occurs_at(ln, "delete mode "@, 0) {
        assert(ln.subrange(0, 12)[0] == ln[0]);
    }
    let rest = after(ln, "rename "@.len() as int);
    let body = split_percent(rest).0;
    lemma_find_below_occurs(rest, " ("@, rest.len() as int);
    assert forall|i: int| 0 <= i implies !occurs_at(body, " => "@, i) by {
        if occurs_at(body, " => "@, i) {
            assert(body.len() <= rest.len());
            assert(body =~= rest.subrange(0, body.len() as int));
            assert(rest.subrange(i, i + " => "@.len() as int) =~= body.subrange(i, i + " => "@.len() as int));
            assert(occurs_at(rest, " => "@, i));
        }
    }
    lemma_find_from_none(body, " => "@, 0);
}

/// A line that is no creation, deletion or rename leaves the tables as
/// they were.
pub proof fn law_other_line_inert(t: TablesModel)
    ensures
        apply_entry(t, EntryModel::Other) == t,
{
}

} // verus!
