//! The status of a path under the tables, and its rendered line.

use vstd::prelude::*;
use vstd::string::*;
use crate::report::{texts, ClassificationTables, TablesModel};
use crate::text::{trim_text, trimmed};

verus! {

/// The status of a path, as characters.
pub enum ClassificationModel {
    Created,
    Deleted,
    RenamedAway(Seq<char>),
    RenamedIn(Seq<char>),
    Unchanged,
}

/// The status of a path: created, deleted, the origin or the destination of
/// a rename (with its similarity percentage), or unchanged.
#[derive(Debug, Clone, PartialEq, Eq)]
pub enum Classification {
    Created,
    Deleted,
    RenamedAway(String),
    RenamedIn(String),
    Unchanged,
}

impl View for Classification {
    type V = ClassificationModel;

    open spec fn view(&self) -> ClassificationModel {
        match self {
            Classification::Created => ClassificationModel::Created,
            Classification::Deleted => ClassificationModel::Deleted,
            Classification::RenamedAway(p) => ClassificationModel::RenamedAway(p@),
            Classification::RenamedIn(p) => ClassificationModel::RenamedIn(p@),
            Classification::Unchanged => ClassificationModel::Unchanged,
        }
    }
}

/// The status of a trimmed path; the first of these that holds decides:
/// created, deleted, a rename origin with a percentage, a rename destination
/// with a percentage, else unchanged.
pub open spec fn classify_model(t: TablesModel, p: Seq<char>) -> ClassificationModel {
    if t.created.contains(p) {
        ClassificationModel::Created
    } else if t.deleted.contains(p) {
        ClassificationModel::Deleted
    } else if t.renamed_to.contains_key(p) && t.percent_of.contains_key(p) {
        ClassificationModel::RenamedAway(t.percent_of[p])
    } else if t.renamed_from.contains_key(p) && t.percent_of.contains_key(p) {
        ClassificationModel::RenamedIn(t.percent_of[p])
    } else {
        ClassificationModel::Unchanged
    }
}

/// The rendered line of a path with status `c`, whose styled form is
/// `styled`: a colored glyph, the styled path, for a rename its percentage,
/// and a newline.
pub open spec fn render_model(c: ClassificationModel, styled: Seq<char>) -> Seq<char> {
    match c {
        ClassificationModel::Created => "\x1b[32m\u{25cf}\x1b[0m "@ + styled + "\n"@,
        ClassificationModel::Deleted => "\x1b[31m\u{25cf}\x1b[0m "@ + styled + "\n"@,
        ClassificationModel::RenamedAway(p) => "\x1b[31m\u{2190}\x1b[0m "@ + styled
            + "\t\t\x1b[33m("@ + p + ")\x1b[0m\n"@,
        ClassificationModel::RenamedIn(p) => "\x1b[32m\u{2192}\x1b[0m "@ + styled
            + "\t\t\x1b[33m("@ + p + ")\x1b[0m\n"@,
        ClassificationModel::Unchanged => "\x1b[34m\u{25aa}\x1b[0m "@ + styled + "\n"@,
    }
}

/// The statuses of a stream of raw path lines, each trimmed first.
pub open spec fn stream_model(t: TablesModel, lines: Seq<Seq<char>>) -> Seq<ClassificationModel> {
    lines.map_values(|l: Seq<char>| classify_model(t, trimmed(l)))
}

pub open spec fn classification_views(v: Seq<Classification>) -> Seq<ClassificationModel> {
    v.map_values(|c: Classification| c@)
}

impl ClassificationTables {
    /// The status of a trimmed path.
    pub fn classify(&self, path: &str) -> (r: Classification)
        ensures
            r@ == classify_model(self@, path@),
    {
        if self.is_created(path) {
            return Classification::Created;
        }
        if self.is_deleted(path) {
            return Classification::Deleted;
        }
        let pct = self.percent_of(path);
        match pct {
            Some(p) => {
                if self.renamed_to(path).is_some() {
                    Classification::RenamedAway(p.clone())
                } else if self.renamed_from(path).is_some() {
                    Classification::RenamedIn(p.clone())
                } else {
                    Classification::Unchanged
                }
            },
            None => Classification::Unchanged,
        }
    }

    /// The status of a raw path line, trimmed first.
    pub fn classify_line(&self, line: &str) -> (r: Classification)
        ensures
            r@ == classify_model(self@, trimmed(line@)),
    {
        self.classify(trim_text(line))
    }

    /// The statuses of a stream of raw path lines, in order.
    pub fn classify_all(&self, lines: &Vec<String>) -> (r: Vec<Classification>)
        ensures
            classification_views(r@) == stream_model(self@, texts(lines@)),
    {
        let mut out: Vec<Classification> = Vec::new();
        let mut i: usize = 0;
        while i < lines.len()
            invariant
                i <= lines.len(),
                classification_views(out@) == stream_model(
                    self@,
                    texts(lines@.subrange(0, i as int)),
                ),
            decreases lines.len() - i,
        {
            let c = self.classify_line(lines[i].as_str());
            let ghost before = out@;
            let ghost cv = c@;
            out.push(c);
            proof {
                let prev = texts(lines@.subrange(0, i as int));
                let next = texts(lines@.subrange(0, i + 1));
                assert(next =~= prev.push(lines@[i as int]@));
                assert(classification_views(out@) =~= classification_views(before).push(cv));
                assert(stream_model(self@, next) =~= stream_model(self@, prev).push(cv));
            }
            i += 1;
        }
        assert(lines@.subrange(0, lines.len() as int) =~= lines@);
        out
    }
}

/// The rendered line of a path with status `c`, whose styled form is
/// `styled`.
pub fn render(c: &Classification, styled: &str) -> (r: String)
    ensures
        r@ == render_model(c@, styled@),
{
    match c {
        Classification::Created => {
            String::from_str("\x1b[32m\u{25cf}\x1b[0m ").concat(styled).concat("\n")
        },
        Classification::Deleted => {
            String::from_str("\x1b[31m\u{25cf}\x1b[0m ").concat(styled).concat("\n")
        },
        Classification::RenamedAway(p) => {
            String::from_str("\x1b[31m\u{2190}\x1b[0m ").concat(styled).concat(
                "\t\t\x1b[33m(",
            ).concat(p.as_str()).concat(")\x1b[0m\n")
        },
        Classification::RenamedIn(p) => {
            String::from_str("\x1b[32m\u{2192}\x1b[0m ").concat(styled).concat(
                "\t\t\x1b[33m(",
            ).concat(p.as_str()).concat(")\x1b[0m\n")
        },
        Classification::Unchanged => {
            String::from_str("\x1b[34m\u{25aa}\x1b[0m ").concat(styled).concat("\n")
        },
    }
}

} // verus!
