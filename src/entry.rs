//! One listed directory child: its kind, name, timestamps, size, colour and
//! the reason its metadata could not be read.

use vstd::prelude::*;
use crate::args::Args;
use crate::colors::{Color, get_color, path_color};
use std::cmp::Ordering;
use vstd::multiset::Multiset;

verus! {

/// Kind of a listed entry.
#[derive(Clone, Copy, PartialEq, Eq, Structural, Debug)]
pub enum EntryKind {
    Directory,
    File,
    Symlink,
    Unknown,
}

impl EntryKind {
    /// Character that marks the kind at the start of a row.
    pub open spec fn spec_marker(self) -> char {
        match self {
            EntryKind::Directory => 'D',
            EntryKind::File => 'F',
            EntryKind::Symlink => 'S',
            EntryKind::Unknown => 'U',
        }
    }

    /// Position of the kind in the listing order; it follows the order of
    /// the markers.
    pub open spec fn rank(self) -> nat {
        match self {
            EntryKind::Directory => 0,
            EntryKind::File => 1,
            EntryKind::Symlink => 2,
            EntryKind::Unknown => 3,
        }
    }

    pub fn marker(&self) -> (r: char)
        ensures
            r == self.spec_marker(),
    {
        match self {
            EntryKind::Directory => 'D',
            EntryKind::File => 'F',
            EntryKind::Symlink => 'S',
            EntryKind::Unknown => 'U',
        }
    }
}

/// What a look at a path found: whether the path itself is a symbolic link,
/// and whether it leads to a file or to a directory.
#[derive(Clone, Copy, PartialEq, Eq, Structural, Debug)]
pub struct PathProbe {
    pub is_symlink: bool,
    pub is_file: bool,
    pub is_dir: bool,
}

/// Kind of an entry: a link is a link whatever it points at.
pub open spec fn kind_of(p: PathProbe) -> EntryKind {
    if p.is_symlink {
        EntryKind::Symlink
    } else if p.is_file {
        EntryKind::File
    } else if p.is_dir {
        EntryKind::Directory
    } else {
        EntryKind::Unknown
    }
}

pub fn kind_from_probe(p: PathProbe) -> (r: EntryKind)
    ensures
        r == kind_of(p),
{
    if p.is_symlink {
        EntryKind::Symlink
    } else if p.is_file {
        EntryKind::File
    } else if p.is_dir {
        EntryKind::Directory
    } else {
        EntryKind::Unknown
    }
}

/// Name shown for a final path component that is missing or not text.
pub open spec fn name_placeholder() -> Seq<char> {
    "---"@
}

pub open spec fn name_of(file_name: Option<&str>) -> Seq<char> {
    match file_name {
        Some(s) => s@,
        None => name_placeholder(),
    }
}

/// Name of an entry from the final component of its path.
pub fn entry_name(file_name: Option<&str>) -> (r: String)
    ensures
        r@ == name_of(file_name),
{
    match file_name {
        Some(s) => String::from_str(s),
        None => String::from_str("---"),
    }
}

/// A point in time as seconds and nanoseconds after the Unix epoch.
#[derive(Clone, Copy, PartialEq, Eq, Structural, Debug)]
pub struct FileTime {
    pub secs: i64,
    pub nanos: u32,
}

/// Local calendar date and time of day.
#[derive(Clone, Copy, PartialEq, Eq, Structural, Debug)]
pub struct DateTime {
    pub year: i32,
    pub month: u32,
    pub day: u32,
    pub hour: u32,
    pub minute: u32,
    pub second: u32,
}

impl DateTime {
    pub open spec fn wf(&self) -> bool {
        &&& 1 <= self.month <= 12
        &&& 1 <= self.day <= 31
        &&& self.hour < 24
        &&& self.minute < 60
        &&& self.second < 60
    }
}

/// Metadata of a path, as far as the platform provides it.
#[derive(Clone, Copy, PartialEq, Eq, Structural, Debug)]
pub struct MetadataInfo {
    pub created: Option<FileTime>,
    pub modified: Option<FileTime>,
    pub accessed: Option<FileTime>,
    pub len: u64,
}

/// Relies on chrono's `DateTime::from_timestamp` and
/// `DateTime::with_timezone(&Local)` (the conversion chrono applies to a
/// `SystemTime`), and on the ranges that its `Datelike` and `Timelike`
/// accessors document. The result depends on the machine's time zone.
#[verifier::external_body]
fn local_date_time(t: FileTime) -> (r: Option<DateTime>)
    ensures
        r matches Some(d) ==> d.wf(),
{
    match chrono::DateTime::from_timestamp(t.secs, t.nanos) {
        None => None,
        Some(utc) => {
            let l = utc.with_timezone(&chrono::Local);
            Some(DateTime {
                year: chrono::Datelike::year(&l),
                month: chrono::Datelike::month(&l),
                day: chrono::Datelike::day(&l),
                hour: chrono::Timelike::hour(&l),
                minute: chrono::Timelike::minute(&l),
                second: chrono::Timelike::second(&l),
            })
        },
    }
}

/// A requested timestamp: absent when not requested or not provided.
/// Whatever the conversion gives, a present value is well formed.
fn requested_time(wanted: bool, t: Option<FileTime>) -> (r: Option<DateTime>)
    ensures
        r is Some ==> wanted && t is Some,
        r matches Some(d) ==> d.wf(),
{
    if !wanted {
        return None;
    }
    match t {
        None => None,
        Some(ft) => local_date_time(ft),
    }
}

/// Sum of the sizes that could be read.
pub open spec fn tree_total(s: Seq<Option<u64>>) -> nat
    decreases s.len(),
{
    if s.len() == 0 {
        0
    } else {
        tree_total(s.drop_last()) + match s.last() {
            Some(n) => n as nat,
            None => 0nat,
        }
    }
}

/// Each readable entry met in a subtree adds its whole size to the total,
/// whatever its name, hidden or not; an unreadable one adds nothing.
pub proof fn lemma_tree_total_counts_each(s: Seq<Option<u64>>, x: Option<u64>)
    ensures
        tree_total(s.push(x)) == tree_total(s) + match x {
            Some(n) => n as nat,
            None => 0nat,
        },
{
    assert(s.push(x).drop_last() =~= s);
}

/// `n`, or the largest `u64` where `n` does not fit.
pub open spec fn clamp_u64(n: nat) -> u64 {
    if n <= u64::MAX {
        n as u64
    } else {
        u64::MAX
    }
}

/// Total size of a subtree from the sizes of its entries; entries whose
/// metadata could not be read (`None`) add nothing.
pub fn recursive_size(sizes: &Vec<Option<u64>>) -> (r: u64)
    ensures
        r == clamp_u64(tree_total(sizes@)),
{
    let mut total: u64 = 0;
    let mut i: usize = 0;
    while i < sizes.len()
        invariant
            i <= sizes@.len(),
            total == clamp_u64(tree_total(sizes@.subrange(0, i as int))),
        decreases sizes@.len() - i,
    {
        assert(sizes@.subrange(0, i + 1).drop_last() =~= sizes@.subrange(0, i as int));
        match sizes[i] {
            Some(n) => {
                total = total.saturating_add(n);
            },
            None => {},
        }
        i = i + 1;
    }
    assert(sizes@.subrange(0, i as int) =~= sizes@);
    total
}

/// One listed directory child.
pub struct PrintEntry {
    pub kind: EntryKind,
    pub name: String,
    pub created: Option<DateTime>,
    pub modified: Option<DateTime>,
    pub accessed: Option<DateTime>,
    pub size: u64,
    pub error: Option<String>,
    pub color: Color,
}

impl PrintEntry {
    /// Builds the entry of `path`.
    ///
    /// `metadata` is what reading the path's metadata gave, or `None` where it
    /// was not read; it is used only when some column needs it. `tree` holds
    /// the sizes met while walking the subtree of a directory, used when
    /// sizes are shown recursively. A failed metadata read leaves the entry
    /// without timestamps and size, and keeps the reason.
    pub fn new(
        path: &str,
        file_name: Option<&str>,
        probe: PathProbe,
        metadata: Option<Result<MetadataInfo, String>>,
        tree: &Vec<Option<u64>>,
        args: &Args,
    ) -> (r: PrintEntry)
        ensures
            r.kind == kind_of(probe),
            r.name@ == name_of(file_name),
            r.color == path_color(path@, probe.is_dir),
            r.created matches Some(d) ==> d.wf(),
            r.modified matches Some(d) ==> d.wf(),
            r.accessed matches Some(d) ==> d.wf(),
            !(args.spec_wants_metadata() && metadata is Some) ==> {
                &&& r.error is None
                &&& r.size == 0
                &&& r.created is None
                &&& r.modified is None
                &&& r.accessed is None
            },
            args.spec_wants_metadata() ==> match metadata {
                None => true,
                Some(Err(e)) => {
                    &&& r.error == Some(e)
                    &&& r.size == 0
                    &&& r.created is None
                    &&& r.modified is None
                    &&& r.accessed is None
                },
                Some(Ok(m)) => {
                    &&& r.error is None
                    &&& r.size == if !args.size {
                        0
                    } else if args.recursive && probe.is_dir {
                        clamp_u64(tree_total(tree@))
                    } else {
                        m.len
                    }
                    &&& (r.created is Some ==> args.creation_date && m.created is Some)
                    &&& (r.modified is Some ==> args.modification_date && m.modified is Some)
                    &&& (r.accessed is Some ==> args.access_date && m.accessed is Some)
                },
            },
    {
        let mut entry = PrintEntry {
            kind: kind_from_probe(probe),
            name: entry_name(file_name),
            created: None,
            modified: None,
            accessed: None,
            size: 0,
            error: None,
            color: get_color(path, probe.is_dir),
        };
        if !args.wants_metadata() {
            return entry;
        }
        match metadata {
            None => entry,
            Some(Err(e)) => {
                entry.error = Some(e);
                entry
            },
            Some(Ok(m)) => {
                entry.created = requested_time(args.creation_date, m.created);
                entry.modified = requested_time(args.modification_date, m.modified);
                entry.accessed = requested_time(args.access_date, m.accessed);
                if args.size {
                    entry.size = if args.wants_tree_walk(probe.is_dir) {
                        recursive_size(tree)
                    } else {
                        m.len
                    };
                }
                entry
            },
        }
    }
}

/// Strict lexicographic order of texts, character by character by code point.
pub open spec fn chars_less(a: Seq<char>, b: Seq<char>) -> bool
    decreases a.len(),
{
    if a.len() == 0 {
        b.len() > 0
    } else if b.len() == 0 {
        false
    } else if a[0] != b[0] {
        (a[0] as u32) < (b[0] as u32)
    } else {
        chars_less(a.drop_first(), b.drop_first())
    }
}

proof fn lemma_char_code_injective(a: char, b: char)
    ensures
        a != b ==> (a as u32) != (b as u32),
{
}

proof fn lemma_chars_less_irreflexive(a: Seq<char>)
    ensures
        !chars_less(a, a),
    decreases a.len(),
{
    if a.len() > 0 {
        lemma_chars_less_irreflexive(a.drop_first());
    }
}

proof fn lemma_chars_less_strict(a: Seq<char>, b: Seq<char>)
    ensures
        !chars_less(a, a),
        chars_less(a, b) ==> !chars_less(b, a),
        a != b ==> chars_less(a, b) || chars_less(b, a),
    decreases a.len(),
{
    lemma_chars_less_irreflexive(a);
    if a.len() > 0 && b.len() > 0 {
        lemma_chars_less_strict(a.drop_first(), b.drop_first());
        lemma_char_code_injective(a[0], b[0]);
        if a[0] == b[0] && a != b {
            assert(a.drop_first() != b.drop_first()) by {
                if a.drop_first() == b.drop_first() {
                    assert(a =~= seq![a[0]] + a.drop_first());
                    assert(b =~= seq![b[0]] + b.drop_first());
                }
            }
        }
    } else if a.len() == 0 && b.len() == 0 {
        assert(a =~= b);
    }
}

proof fn lemma_chars_less_transitive(a: Seq<char>, b: Seq<char>, c: Seq<char>)
    requires
        chars_less(a, b),
        chars_less(b, c),
    ensures
        chars_less(a, c),
    decreases a.len(),
{
    if a.len() > 0 && b.len() > 0 && c.len() > 0 && a[0] == b[0] && b[0] == c[0] {
        lemma_chars_less_transitive(a.drop_first(), b.drop_first(), c.drop_first());
    }
}

impl PrintEntry {
    /// `self` comes strictly before `other`: by kind first, then by name.
    pub open spec fn spec_less(&self, other: &PrintEntry) -> bool {
        self.kind.rank() < other.kind.rank() || (self.kind == other.kind && chars_less(
            self.name@,
            other.name@,
        ))
    }

    /// Two entries stand at the same place: same kind and same name.
    pub open spec fn same_key(&self, other: &PrintEntry) -> bool {
        self.kind == other.kind && self.name@ == other.name@
    }

    /// Compares two entries by kind, then by name.
    pub fn compare(&self, other: &PrintEntry) -> (r: Ordering)
        ensures
            (r == Ordering::Less) == self.spec_less(other),
            (r == Ordering::Equal) == self.same_key(other),
            (r == Ordering::Greater) == other.spec_less(self),
    {
        proof {
            lemma_chars_less_strict(self.name@, other.name@);
        }
        let ra = rank_of(self.kind);
        let rb = rank_of(other.kind);
        if ra < rb {
            return Ordering::Less;
        } else if rb < ra {
            return Ordering::Greater;
        }
        assert(self.kind == other.kind);
        let a = self.name.as_str();
        let b = other.name.as_str();
        let na = a.unicode_len();
        let nb = b.unicode_len();
        let mut i: usize = 0;
        assert(a@.subrange(0, na as int) =~= a@);
        assert(b@.subrange(0, nb as int) =~= b@);
        assert(a@.subrange(0, 0) =~= b@.subrange(0, 0));
        while i < na && i < nb
            invariant
                a@ == self.name@,
                b@ == other.name@,
                self.kind == other.kind,
                na == a@.len(),
                nb == b@.len(),
                i <= na,
                i <= nb,
                a@.subrange(0, i as int) == b@.subrange(0, i as int),
                chars_less(a@, b@) == chars_less(a@.subrange(i as int, na as int), b@.subrange(i as int, nb as int)),
                chars_less(b@, a@) == chars_less(b@.subrange(i as int, nb as int), a@.subrange(i as int, na as int)),
            decreases na - i,
        {
            let ca = a.get_char(i);
            let cb = b.get_char(i);
            if ca != cb {
                assert(a@.subrange(i as int, na as int)[0] == ca);
                assert(b@.subrange(i as int, nb as int)[0] == cb);
                assert(a@[i as int] != b@[i as int]);
                proof {
                    lemma_char_code_injective(ca, cb);
                }
                if (ca as u32) < (cb as u32) {
                    return Ordering::Less;
                } else {
                    return Ordering::Greater;
                }
            }
            assert(a@.subrange(i as int, na as int).drop_first() =~= a@.subrange(i + 1, na as int));
            assert(b@.subrange(i as int, nb as int).drop_first() =~= b@.subrange(i + 1, nb as int));
            assert(a@.subrange(0, i + 1) =~= a@.subrange(0, i as int).push(ca));
            assert(b@.subrange(0, i + 1) =~= b@.subrange(0, i as int).push(cb));
            i = i + 1;
        }
        if na < nb {
            Ordering::Less
        } else if nb < na {
            Ordering::Greater
        } else {
            assert(a@ =~= a@.subrange(0, i as int));
            assert(b@ =~= b@.subrange(0, i as int));
            Ordering::Equal
        }
    }
}

fn rank_of(k: EntryKind) -> (r: u8)
    ensures
        r as nat == k.rank(),
{
    match k {
        EntryKind::Directory => 0,
        EntryKind::File => 1,
        EntryKind::Symlink => 2,
        EntryKind::Unknown => 3,
    }
}

/// The listing order is a strict total order: no entry comes before itself,
/// two entries never come before each other, the order is transitive, and
/// of two entries that differ in kind or in name one comes first. In
/// particular a directory and a file of the same name are never equal.
pub proof fn lemma_listing_order(a: &PrintEntry, b: &PrintEntry, c: &PrintEntry)
    ensures
        !a.spec_less(a),
        a.spec_less(b) ==> !b.spec_less(a),
        a.spec_less(b) && b.spec_less(c) ==> a.spec_less(c),
        !a.same_key(b) ==> a.spec_less(b) || b.spec_less(a),
        a.kind != b.kind ==> !a.same_key(b),
{
    lemma_chars_less_strict(a.name@, b.name@);
    if a.spec_less(b) && b.spec_less(c) && a.kind == b.kind && b.kind == c.kind {
        lemma_chars_less_transitive(a.name@, b.name@, c.name@);
    }
}

impl PartialEq for PrintEntry {
    fn eq(&self, other: &PrintEntry) -> (r: bool) {
        self.kind == other.kind && self.name == other.name
    }
}

impl vstd::std_specs::cmp::PartialEqSpecImpl for PrintEntry {
    open spec fn obeys_eq_spec() -> bool {
        true
    }

    open spec fn eq_spec(&self, other: &PrintEntry) -> bool {
        self.same_key(other)
    }
}

impl Eq for PrintEntry {

}

impl PrintEntry {
    /// Where `self` stands relative to `other` in the listing order.
    pub open spec fn spec_order(&self, other: &PrintEntry) -> Ordering {
        if self.spec_less(other) {
            Ordering::Less
        } else if self.same_key(other) {
            Ordering::Equal
        } else {
            Ordering::Greater
        }
    }
}

impl PartialOrd for PrintEntry {
    fn partial_cmp(&self, other: &PrintEntry) -> (r: Option<Ordering>) {
        proof {
            lemma_listing_order(self, other, other);
        }
        Some(self.compare(other))
    }
}

impl vstd::std_specs::cmp::PartialOrdSpecImpl for PrintEntry {
    open spec fn obeys_partial_cmp_spec() -> bool {
        true
    }

    open spec fn partial_cmp_spec(&self, other: &PrintEntry) -> Option<Ordering> {
        Some(self.spec_order(other))
    }
}

/// No entry comes after one that follows it.
pub open spec fn is_sorted(s: Seq<PrintEntry>) -> bool {
    forall|i: int, j: int|
        #![trigger s[i], s[j]]
        0 <= i < j < s.len() ==> !s[j].spec_less(&s[i])
}

/// Puts the entries of a directory in listing order: by kind, then by name.
pub fn sort_entries(entries: Vec<PrintEntry>) -> (r: Vec<PrintEntry>)
    ensures
        is_sorted(r@),
        r@.to_multiset() == entries@.to_multiset(),
{
    let ghost all = entries@.to_multiset();
    let mut input = entries;
    let mut out: Vec<PrintEntry> = Vec::new();
    proof {
        broadcast use vstd::multiset::group_multiset_axioms, vstd::seq_lib::group_to_multiset_ensures;

        assert(out@.to_multiset() =~= Multiset::empty());
        assert(out@.to_multiset().add(input@.to_multiset()) =~= all);
    }
    while input.len() > 0
        invariant
            is_sorted(out@),
            out@.to_multiset().add(input@.to_multiset()) == all,
        decreases input@.len(),
    {
        let ghost before = input@;
        let x = input.pop().unwrap();
        proof {
            assert(before =~= input@.push(x));
            vstd::seq_lib::to_multiset_build(input@, x);
        }
        let mut j: usize = 0;
        let mut found = false;
        while !found && j < out.len()
            invariant
                j <= out@.len(),
                is_sorted(out@),
                forall|k: int| 0 <= k < j ==> !x.spec_less(&(#[trigger] out@[k])),
                found ==> j < out@.len() && x.spec_less(&out@[j as int]),
            decreases (out@.len() - j) * 2 + (if found {
                0int
            } else {
                1int
            }),
        {
            match out[j].compare(&x) {
                Ordering::Greater => {
                    found = true;
                },
                _ => {
                    j = j + 1;
                },
            }
        }
        proof {
            if j < out@.len() {
                assert forall|k: int| j <= k < out@.len() implies !(#[trigger] out@[k]).spec_less(
                    &x,
                ) by {
                    lemma_listing_order(&out@[k], &x, &out@[j as int]);
                    if k > j {
                        assert(!out@[k].spec_less(&out@[j as int]));
                    } else {
                        lemma_listing_order(&x, &out@[j as int], &x);
                    }
                }
            }
        }
        let ghost old_out = out@;
        out.insert(j, x);
        proof {
            vstd::seq_lib::to_multiset_insert(old_out, j as int, x);
            assert forall|a: int, b: int|
                #![trigger out@[a], out@[b]]
                0 <= a < b < out@.len() implies !out@[b].spec_less(&out@[a]) by {
                if b < j {
                } else if b == j {
                } else if a < j {
                } else if a == j {
                    assert(out@[b] == old_out[b - 1]);
                } else {
                    assert(out@[b] == old_out[b - 1]);
                    assert(out@[a] == old_out[a - 1]);
                }
            }
            assert(out@.to_multiset().add(input@.to_multiset()) =~= all);
        }
    }
    proof {
        broadcast use vstd::multiset::group_multiset_axioms, vstd::seq_lib::group_to_multiset_ensures;

        assert(input@ =~= Seq::<PrintEntry>::empty());
        assert(input@.to_multiset() =~= Multiset::empty());
        assert(out@.to_multiset() =~= all);
    }
    out
}

} // verus!
