//! The change-summary grammar, and the tables that a summary fills.

use vstd::prelude::*;
use vstd::string::*;
use crate::laws::law_percent_belongs_to_rename;
use crate::tables::{StrMap, StrSet};
use crate::text::{
    after, collapse_slashes, collapse_text, find_text, first_index, last_index, matches_at,
    occurs_at, rfind_text, slice_text, trim_text, trimmed,
};

verus! {

/// What one summary line says, as characters.
pub enum EntryModel {
    Created(Seq<char>),
    Deleted(Seq<char>),
    /// Origin, destination and similarity percentage (empty when absent).
    Renamed(Seq<char>, Seq<char>, Seq<char>),
    Other,
}

/// The path after the mode field: what follows the first space.
pub open spec fn mode_path(rest: Seq<char>) -> Option<Seq<char>> {
    match first_index(rest, " "@) {
        Some(i) => Some(after(rest, i + 1)),
        None => None,
    }
}

/// A rename body split from its trailing ` (percentage)`: the body without
/// that suffix, and the text between the parentheses.
pub open spec fn split_percent(s: Seq<char>) -> (Seq<char>, Seq<char>) {
    match (last_index(s, " ("@), last_index(s, ")"@)) {
        (Some(a), Some(b)) => if b > a {
            (s.subrange(0, a), s.subrange(a + 2, b))
        } else {
            (s, Seq::<char>::empty())
        },
        _ => (s, Seq::<char>::empty()),
    }
}

/// The origin and destination of a rename body, in the bracketed form
/// `prefix{from => to}suffix` or in the plain form `origin => dest`.
pub open spec fn rename_pair(body: Seq<char>) -> Option<(Seq<char>, Seq<char>)> {
    match (first_index(body, "{"@), first_index(body, "}"@), first_index(body, " => "@)) {
        (Some(l), Some(r), Some(m)) => if l < m && m + 4 <= r {
            let prefix = body.subrange(0, l);
            let from = body.subrange(l + 1, m);
            let to = body.subrange(m + 4, r);
            let suffix = after(body, r + 1);
            Some((collapse_slashes(prefix + from + suffix), collapse_slashes(prefix + to + suffix)))
        } else {
            None
        },
        (_, _, Some(m)) => Some((body.subrange(0, m), after(body, m + 4))),
        _ => None,
    }
}

/// What a trimmed summary line says.
pub open spec fn line_model(ln: Seq<char>) -> EntryModel {
    if occurs_at(ln, "create mode "@, 0) {
        match mode_path(after(ln, "create mode "@.len() as int)) {
            Some(p) => EntryModel::Created(p),
            None => EntryModel::Other,
        }
    } else if occurs_at(ln, "delete mode "@, 0) {
        match mode_path(after(ln, "delete mode "@.len() as int)) {
            Some(p) => EntryModel::Deleted(p),
            None => EntryModel::Other,
        }
    } else if occurs_at(ln, "rename "@, 0) {
        let (body, percent) = split_percent(after(ln, "rename "@.len() as int));
        match rename_pair(body) {
            Some((o, d)) => EntryModel::Renamed(o, d, percent),
            None => EntryModel::Other,
        }
    } else {
        EntryModel::Other
    }
}

/// One rename of the summary: origin, destination, and the similarity
/// percentage, empty when the line gave none.
#[derive(Debug, Clone, PartialEq, Eq)]
pub struct RenameRecord {
    pub origin: String,
    pub dest: String,
    pub percent: String,
}

impl View for RenameRecord {
    type V = (Seq<char>, Seq<char>, Seq<char>);

    open spec fn view(&self) -> (Seq<char>, Seq<char>, Seq<char>) {
        (self.origin@, self.dest@, self.percent@)
    }
}

/// The manifest line of a rename: `origin::dest::percentage` and a newline.
pub open spec fn manifest_model(r: (Seq<char>, Seq<char>, Seq<char>)) -> Seq<char> {
    r.0 + "::"@ + r.1 + "::"@ + r.2 + "\n"@
}

impl RenameRecord {
    /// The line that stands for this rename in the rename manifest.
    pub fn manifest_line(&self) -> (r: String)
        ensures
            r@ == manifest_model(self@),
    {
        let mut out = self.origin.clone();
        out.append("::");
        out.append(self.dest.as_str());
        out.append("::");
        out.append(self.percent.as_str());
        out.append("\n");
        out
    }
}

/// One parsed summary line.
#[derive(Debug, Clone, PartialEq, Eq)]
pub enum ReportLine {
    Created(String),
    Deleted(String),
    Renamed(RenameRecord),
    Other,
}

impl View for ReportLine {
    type V = EntryModel;

    open spec fn view(&self) -> EntryModel {
        match self {
            ReportLine::Created(p) => EntryModel::Created(p@),
            ReportLine::Deleted(p) => EntryModel::Deleted(p@),
            ReportLine::Renamed(r) => EntryModel::Renamed(r.origin@, r.dest@, r.percent@),
            ReportLine::Other => EntryModel::Other,
        }
    }
}

fn mode_path_text(rest: &str) -> (r: Option<String>)
    ensures
        match r {
            Some(p) => mode_path(rest@) == Some(p@),
            None => mode_path(rest@) is None,
        },
{
    proof {
        reveal_strlit(" ");
    }
    match find_text(rest, " ") {
        Some(i) => {
            let n = rest.unicode_len();
            assert(" "@.len() == 1);
            Some(slice_text(rest, i + 1, n))
        },
        None => None,
    }
}

fn split_percent_text<'a>(s: &'a str) -> (r: (&'a str, String))
    ensures
        (r.0@, r.1@) == split_percent(s@),
{
    proof {
        reveal_strlit(" (");
        reveal_strlit(")");
    }
    let open = rfind_text(s, " (");
    let close = rfind_text(s, ")");
    match (open, close) {
        (Some(a), Some(b)) => {
            if b > a {
                assert(s@.subrange(a as int, a + 2)[1] == s@[a + 1]);
                assert(s@.subrange(b as int, b + 1)[0] == s@[b as int]);
                (s.substring_char(0, a), slice_text(s, a + 2, b))
            } else {
                (s, String::new())
            }
        },
        _ => (s, String::new()),
    }
}

fn rename_pair_text(body: &str) -> (r: Option<(String, String)>)
    ensures
        match r {
            Some(pair) => rename_pair(body@) == Some((pair.0@, pair.1@)),
            None => rename_pair(body@) is None,
        },
{
    proof {
        reveal_strlit("{");
        reveal_strlit("}");
        reveal_strlit(" => ");
    }
    let n = body.unicode_len();
    let lb = find_text(body, "{");
    let rb = find_text(body, "}");
    let sp = find_text(body, " => ");
    match (lb, rb, sp) {
        (Some(l), Some(r), Some(m)) => {
            if l < m && m + 4 <= r {
                let prefix = body.substring_char(0, l);
                let from = body.substring_char(l + 1, m);
                let to = body.substring_char(m + 4, r);
                let suffix = body.substring_char(r + 1, n);
                let joined_from = String::from_str(prefix).concat(from).concat(suffix);
                let joined_to = String::from_str(prefix).concat(to).concat(suffix);
                Some((collapse_text(joined_from.as_str()), collapse_text(joined_to.as_str())))
            } else {
                None
            }
        },
        (_, _, Some(m)) => Some((slice_text(body, 0, m), slice_text(body, m + 4, n))),
        _ => None,
    }
}

/// Parses one summary line that has already been trimmed.
pub fn parse_trimmed_line(ln: &str) -> (r: ReportLine)
    ensures
        r@ == line_model(ln@),
{
    let n = ln.unicode_len();
    if matches_at(ln, "create mode ", 0) {
        let rest = ln.substring_char("create mode ".unicode_len(), n);
        match mode_path_text(rest) {
            Some(p) => ReportLine::Created(p),
            None => ReportLine::Other,
        }
    } else if matches_at(ln, "delete mode ", 0) {
        let rest = ln.substring_char("delete mode ".unicode_len(), n);
        match mode_path_text(rest) {
            Some(p) => ReportLine::Deleted(p),
            None => ReportLine::Other,
        }
    } else if matches_at(ln, "rename ", 0) {
        let rest = ln.substring_char("rename ".unicode_len(), n);
        let (body, percent) = split_percent_text(rest);
        match rename_pair_text(body) {
            Some((origin, dest)) => ReportLine::Renamed(RenameRecord { origin, dest, percent }),
            None => ReportLine::Other,
        }
    } else {
        ReportLine::Other
    }
}

/// Parses one summary line: trims it, then reads it as
/// [`parse_trimmed_line`] does.
pub fn parse_line(line: &str) -> (r: ReportLine)
    ensures
        r@ == line_model(trimmed(line@)),
{
    parse_trimmed_line(trim_text(line))
}

/// The five lookup tables, as sets and maps of characters.
pub struct TablesModel {
    pub created: Set<Seq<char>>,
    pub deleted: Set<Seq<char>>,
    /// Rename origin to destination.
    pub renamed_to: Map<Seq<char>, Seq<char>>,
    /// Rename destination to origin.
    pub renamed_from: Map<Seq<char>, Seq<char>>,
    /// Similarity percentage of either side of a rename.
    pub percent_of: Map<Seq<char>, Seq<char>>,
}

pub open spec fn empty_tables() -> TablesModel {
    TablesModel {
        created: Set::empty(),
        deleted: Set::empty(),
        renamed_to: Map::empty(),
        renamed_from: Map::empty(),
        percent_of: Map::empty(),
    }
}

/// The tables after one more summary line; a later entry for a key replaces
/// an earlier one.
pub open spec fn apply_entry(t: TablesModel, e: EntryModel) -> TablesModel {
    match e {
        EntryModel::Created(p) => TablesModel { created: t.created.insert(p), ..t },
        EntryModel::Deleted(p) => TablesModel { deleted: t.deleted.insert(p), ..t },
        EntryModel::Renamed(o, d, pct) => TablesModel {
            renamed_to: t.renamed_to.insert(o, d),
            renamed_from: t.renamed_from.insert(d, o),
            percent_of: if pct.len() > 0 {
                t.percent_of.insert(o, pct).insert(d, pct)
            } else {
                t.percent_of
            },
            ..t
        },
        EntryModel::Other => t,
    }
}

/// Every path with a percentage is a side of some rename.
pub open spec fn tables_consistent(t: TablesModel) -> bool {
    forall|k: Seq<char>|
        #[trigger] t.percent_of.contains_key(k) ==> t.renamed_to.contains_key(k)
            || t.renamed_from.contains_key(k)
}

/// What a sequence of summary lines, each trimmed, says.
pub open spec fn entries_of(lines: Seq<Seq<char>>) -> Seq<EntryModel> {
    lines.map_values(|l: Seq<char>| line_model(trimmed(l)))
}

/// The tables that a sequence of entries fills, from empty tables.
pub open spec fn tables_of(es: Seq<EntryModel>) -> TablesModel
    decreases es.len(),
{
    if es.len() == 0 {
        empty_tables()
    } else {
        apply_entry(tables_of(es.drop_last()), es.last())
    }
}

/// The renames among a sequence of entries, in order.
pub open spec fn renames_of(es: Seq<EntryModel>) -> Seq<(Seq<char>, Seq<char>, Seq<char>)>
    decreases es.len(),
{
    if es.len() == 0 {
        Seq::empty()
    } else {
        match es.last() {
            EntryModel::Renamed(o, d, p) => renames_of(es.drop_last()).push((o, d, p)),
            _ => renames_of(es.drop_last()),
        }
    }
}

pub open spec fn texts(v: Seq<String>) -> Seq<Seq<char>> {
    v.map_values(|s: String| s@)
}

pub open spec fn record_views(v: Seq<RenameRecord>) -> Seq<(Seq<char>, Seq<char>, Seq<char>)> {
    v.map_values(|r: RenameRecord| r@)
}

/// The lookup tables that a change summary fills.
pub struct ClassificationTables {
    created: StrSet,
    deleted: StrSet,
    renamed_to: StrMap,
    renamed_from: StrMap,
    percent_of: StrMap,
}

impl View for ClassificationTables {
    type V = TablesModel;

    closed spec fn view(&self) -> TablesModel {
        TablesModel {
            created: self.created@,
            deleted: self.deleted@,
            renamed_to: self.renamed_to@,
            renamed_from: self.renamed_from@,
            percent_of: self.percent_of@,
        }
    }
}

impl ClassificationTables {
    /// Tables with no entry.
    pub fn new() -> (r: ClassificationTables)
        ensures
            r@ == empty_tables(),
    {
        ClassificationTables {
            created: StrSet::new(),
            deleted: StrSet::new(),
            renamed_to: StrMap::new(),
            renamed_from: StrMap::new(),
            percent_of: StrMap::new(),
        }
    }

    /// Enters what one parsed summary line says.
    pub fn record(&mut self, entry: &ReportLine)
        ensures
            final(self)@ == apply_entry(old(self)@, entry@),
            tables_consistent(old(self)@) ==> tables_consistent(final(self)@),
    {
        match entry {
            ReportLine::Created(p) => self.created.insert(p.clone()),
            ReportLine::Deleted(p) => self.deleted.insert(p.clone()),
            ReportLine::Renamed(r) => {
                self.renamed_to.insert(r.origin.clone(), r.dest.clone());
                self.renamed_from.insert(r.dest.clone(), r.origin.clone());
                if r.percent.as_str().unicode_len() > 0 {
                    self.percent_of.insert(r.origin.clone(), r.percent.clone());
                    self.percent_of.insert(r.dest.clone(), r.percent.clone());
                }
            },
            ReportLine::Other => {},
        }
    }

    /// Parses one trimmed summary line and enters what it says.
    pub fn ingest(&mut self, ln: &str) -> (r: ReportLine)
        ensures
            r@ == line_model(ln@),
            final(self)@ == apply_entry(old(self)@, line_model(ln@)),
    {
        let entry = parse_trimmed_line(ln);
        self.record(&entry);
        entry
    }

    pub fn is_created(&self, path: &str) -> (r: bool)
        ensures
            r == self@.created.contains(path@),
    {
        self.created.contains(path)
    }

    pub fn is_deleted(&self, path: &str) -> (r: bool)
        ensures
            r == self@.deleted.contains(path@),
    {
        self.deleted.contains(path)
    }

    /// The destination of a rename whose origin is `path`.
    pub fn renamed_to(&self, path: &str) -> (r: Option<&String>)
        ensures
            match r {
                Some(v) => self@.renamed_to.contains_key(path@) && self@.renamed_to[path@] == v@,
                None => !self@.renamed_to.contains_key(path@),
            },
    {
        self.renamed_to.get(path)
    }

    /// The origin of a rename whose destination is `path`.
    pub fn renamed_from(&self, path: &str) -> (r: Option<&String>)
        ensures
            match r {
                Some(v) => self@.renamed_from.contains_key(path@) && self@.renamed_from[path@]
                    == v@,
                None => !self@.renamed_from.contains_key(path@),
            },
    {
        self.renamed_from.get(path)
    }

    /// The similarity percentage of a rename that `path` is a side of.
    pub fn percent_of(&self, path: &str) -> (r: Option<&String>)
        ensures
            match r {
                Some(v) => self@.percent_of.contains_key(path@) && self@.percent_of[path@] == v@,
                None => !self@.percent_of.contains_key(path@),
            },
    {
        self.percent_of.get(path)
    }
}

/// Parses a whole change summary: the tables its lines fill, and its renames
/// in order, for the rename manifest.
pub fn parse_report(lines: &Vec<String>) -> (r: (ClassificationTables, Vec<RenameRecord>))
    ensures
        r.0@ == tables_of(entries_of(texts(lines@))),
        record_views(r.1@) == renames_of(entries_of(texts(lines@))),
        tables_consistent(r.0@),
{
    let mut tables = ClassificationTables::new();
    let mut renames: Vec<RenameRecord> = Vec::new();
    let mut i: usize = 0;
    while i < lines.len()
        invariant
            i <= lines.len(),
            tables@ == tables_of(entries_of(texts(lines@.subrange(0, i as int)))),
            record_views(renames@) == renames_of(entries_of(texts(lines@.subrange(0, i as int)))),
        decreases lines.len() - i,
    {
        let ghost es = entries_of(texts(lines@.subrange(0, i as int)));
        let ghost es1 = entries_of(texts(lines@.subrange(0, i + 1)));
        let ghost before = record_views(renames@);
        let entry = tables.ingest(trim_text(lines[i].as_str()));
        proof {
            assert(es1.drop_last() =~= es);
            assert(es1.last() == entry@);
        }
        match entry {
            ReportLine::Renamed(r) => {
                renames.push(r);
                assert(record_views(renames@) =~= before.push(renames@.last()@));
            },
            _ => {},
        }
        i += 1;
    }
    assert(lines@.subrange(0, lines.len() as int) =~= lines@);
    proof {
        law_percent_belongs_to_rename(entries_of(texts(lines@)));
    }
    (tables, renames)
}

} // verus!
