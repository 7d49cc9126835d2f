//! The directory index: the ordered, filtered, classified listing of one
//! directory's children.
//!
//! A raw child (name, full path, directory flag) comes from whoever read
//! the directory; building the index filters hidden names out, puts
//! directories before plain files, sorts each partition by name, classifies
//! every entry, and numbers the result densely from zero.

use vstd::prelude::*;
use crate::filekind::{is_hidden_name, is_image_name, name_is_hidden, name_is_image};
use crate::lexord::{lex_le, lemma_lex_le_total, lemma_lex_le_trans, str_le};
use vstd::multiset::Multiset;

verus! {

/// One direct child of a directory, as read from the filesystem.
pub struct RawEntry {
    pub name: String,
    pub full_path: String,
    pub is_dir: bool,
}

/// The mathematical model of a raw child.
pub struct RawModel {
    pub name: Seq<char>,
    pub full_path: Seq<char>,
    pub is_dir: bool,
}

impl View for RawEntry {
    type V = RawModel;

    open spec fn view(&self) -> RawModel {
        RawModel { name: self.name@, full_path: self.full_path@, is_dir: self.is_dir }
    }
}

impl DeepView for RawEntry {
    type V = RawModel;

    open spec fn deep_view(&self) -> RawModel {
        self.view()
    }
}

/// What an entry is rendered and treated as.
#[derive(Clone, Copy, Debug, PartialEq, Eq, Structural)]
pub enum EntryKind {
    Directory,
    Image,
    Generic,
}

/// One rendered row of the directory index. `ordinal` is the dense
/// zero-based position in the listing and the addressing key for clicks.
pub struct DirectoryEntry {
    pub name: String,
    pub full_path: String,
    pub kind: EntryKind,
    pub ordinal: usize,
    pub selected: bool,
}

/// The mathematical model of a rendered entry.
pub struct EntryModel {
    pub name: Seq<char>,
    pub full_path: Seq<char>,
    pub kind: EntryKind,
    pub ordinal: int,
    pub selected: bool,
}

impl View for DirectoryEntry {
    type V = EntryModel;

    open spec fn view(&self) -> EntryModel {
        EntryModel {
            name: self.name@,
            full_path: self.full_path@,
            kind: self.kind,
            ordinal: self.ordinal as int,
            selected: self.selected,
        }
    }
}

impl DeepView for DirectoryEntry {
    type V = EntryModel;

    open spec fn deep_view(&self) -> EntryModel {
        self.view()
    }
}

/// A child's classification: the filesystem's directory flag wins, then
/// the recognized image extensions, then everything else.
pub open spec fn kind_for(r: RawModel) -> EntryKind {
    if r.is_dir {
        EntryKind::Directory
    } else if is_image_name(r.name) {
        EntryKind::Image
    } else {
        EntryKind::Generic
    }
}

/// The rendered entry a child becomes at position `i`.
pub open spec fn entry_for(r: RawModel, i: int) -> EntryModel {
    EntryModel {
        name: r.name,
        full_path: r.full_path,
        kind: kind_for(r),
        ordinal: i,
        selected: false,
    }
}

/// Shown directory children, in reading order: not hidden, directories.
pub open spec fn shown_dirs(s: Seq<RawModel>) -> Seq<RawModel> {
    s.filter(|r: RawModel| r.is_dir && !is_hidden_name(r.name))
}

/// Shown plain-file children, in reading order: not hidden, not directories.
pub open spec fn shown_files(s: Seq<RawModel>) -> Seq<RawModel> {
    s.filter(|r: RawModel| !r.is_dir && !is_hidden_name(r.name))
}

/// Stable insertion of a child into a name-sorted run: it lands after
/// every child whose name sorts at or before its own.
pub open spec fn insert_named(s: Seq<RawModel>, x: RawModel) -> Seq<RawModel>
    decreases s.len(),
{
    if s.len() == 0 {
        seq![x]
    } else if lex_le(s.last().name, x.name) {
        s.push(x)
    } else {
        insert_named(s.drop_last(), x).push(s.last())
    }
}

/// Stable sort of children by name.
pub open spec fn sort_names(s: Seq<RawModel>) -> Seq<RawModel>
    decreases s.len(),
{
    if s.len() == 0 {
        Seq::empty()
    } else {
        insert_named(sort_names(s.drop_last()), s.last())
    }
}

/// The shown children in rendering order: sorted directories, then sorted
/// plain files.
pub open spec fn arranged(s: Seq<RawModel>) -> Seq<RawModel> {
    sort_names(shown_dirs(s)) + sort_names(shown_files(s))
}

/// The directory index built from a directory's raw children.
pub open spec fn build_model(s: Seq<RawModel>) -> Seq<EntryModel> {
    Seq::new(arranged(s).len(), |i: int| entry_for(arranged(s)[i], i))
}

/// Filtering one more element keeps it exactly when the predicate holds.
proof fn lemma_filter_push<A>(s: Seq<A>, pred: spec_fn(A) -> bool, x: A)
    ensures
        s.push(x).filter(pred) == if pred(x) {
            s.filter(pred).push(x)
        } else {
            s.filter(pred)
        },
{
    reveal(Seq::filter);
    assert(s.push(x).drop_last() =~= s);
    assert(s.push(x).last() == x);
}

impl RawEntry {
    /// A field-for-field copy.
    pub fn duplicate(&self) -> (r: RawEntry)
        ensures
            r@ == self@,
    {
        RawEntry {
            name: self.name.clone(),
            full_path: self.full_path.clone(),
            is_dir: self.is_dir,
        }
    }
}

/// Inserts a child into a name-sorted vector, after every child whose name
/// sorts at or before its own.
fn insert_sorted(out: &mut Vec<RawEntry>, x: RawEntry)
    ensures
        final(out).deep_view() == insert_named(old(out).deep_view(), x@),
{
    let ghost dv: Seq<RawModel> = out.deep_view();
    let ghost xm: RawModel = x@;
    let mut j: usize = out.len();
    proof {
        assert(dv.subrange(0, j as int) =~= dv);
        assert(dv.skip(j as int) =~= Seq::empty());
        assert(insert_named(dv, xm) =~= insert_named(dv.subrange(0, j as int), xm) + dv.skip(
            j as int,
        ));
    }
    while j > 0 && !str_le(out[j - 1].name.as_str(), x.name.as_str())
        invariant
            j <= out.len(),
            out.deep_view() == dv,
            xm == x@,
            insert_named(dv, xm) =~= insert_named(dv.subrange(0, j as int), xm) + dv.skip(
                j as int,
            ),
        decreases j,
    {
        proof {
            let pre = dv.subrange(0, j as int);
            assert(pre.len() == j);
            assert(pre.last() == dv[j - 1]);
            assert(!lex_le(pre.last().name, xm.name));
            assert(pre.drop_last() =~= dv.subrange(0, j - 1));
            assert(insert_named(pre, xm) == insert_named(dv.subrange(0, j - 1), xm).push(
                dv[j - 1]));
            assert(insert_named(dv.subrange(0, j - 1), xm).push(dv[j - 1]) + dv.skip(j as int)
                =~= insert_named(dv.subrange(0, j - 1), xm) + dv.skip(j - 1));
        }
        j = j - 1;
    }
    proof {
        let pre = dv.subrange(0, j as int);
        if j == 0 {
            assert(pre.len() == 0);
            assert(insert_named(pre, xm) == seq![xm]);
        } else {
            assert(pre.last() == dv[j - 1]);
            assert(lex_le(pre.last().name, xm.name));
            assert(insert_named(pre, xm) == pre.push(xm));
        }
        assert(insert_named(dv, xm) =~= dv.subrange(0, j as int) + seq![xm] + dv.skip(j as int));
    }
    out.insert(j, x);
    proof {
        assert(out.deep_view() =~= dv.subrange(0, j as int) + seq![xm] + dv.skip(j as int));
    }
}

/// Sorts children by name, stably.
fn sort_by_name(v: Vec<RawEntry>) -> (r: Vec<RawEntry>)
    ensures
        r.deep_view() == sort_names(v.deep_view()),
{
    let ghost sv: Seq<RawModel> = v.deep_view();
    let mut out: Vec<RawEntry> = Vec::new();
    let mut i: usize = 0;
    proof {
        assert(out.deep_view() =~= sort_names(sv.subrange(0, 0)));
    }
    while i < v.len()
        invariant
            i <= v.len(),
            sv == v.deep_view(),
            out.deep_view() == sort_names(sv.subrange(0, i as int)),
        decreases v.len() - i,
    {
        let x = v[i].duplicate();
        insert_sorted(&mut out, x);
        proof {
            let pre = sv.subrange(0, i + 1);
            assert(pre.drop_last() =~= sv.subrange(0, i as int));
            assert(pre.last() == sv[i as int]);
            assert(sort_names(pre) == insert_named(
                sort_names(sv.subrange(0, i as int)),
                sv[i as int],
            ));
        }
        i = i + 1;
    }
    proof {
        assert(sv.subrange(0, v.deep_view().len() as int) =~= sv);
    }
    out
}

/// Builds the directory index for one directory from its raw children:
/// hidden names are dropped, directories come first, each partition is
/// sorted by name, entries are classified, and ordinals number the rows
/// densely from zero.
pub fn build_index(children: &Vec<RawEntry>) -> (r: Vec<DirectoryEntry>)
    ensures
        r.deep_view() == build_model(children.deep_view()),
{
    let ghost raws: Seq<RawModel> = children.deep_view();
    let mut dirs: Vec<RawEntry> = Vec::new();
    let mut files: Vec<RawEntry> = Vec::new();
    let mut i: usize = 0;
    proof {
        reveal(Seq::filter);
        assert(raws.subrange(0, 0) =~= Seq::empty());
        assert(dirs.deep_view() =~= shown_dirs(raws.subrange(0, 0)));
        assert(files.deep_view() =~= shown_files(raws.subrange(0, 0)));
    }
    while i < children.len()
        invariant
            i <= children.len(),
            raws == children.deep_view(),
            dirs.deep_view() == shown_dirs(raws.subrange(0, i as int)),
            files.deep_view() == shown_files(raws.subrange(0, i as int)),
        decreases children.len() - i,
    {
        let hidden = name_is_hidden(children[i].name.as_str());
        proof {
            let pre = raws.subrange(0, i + 1);
            assert(pre.drop_last() =~= raws.subrange(0, i as int));
            assert(pre.last() == raws[i as int]);
            assert(raws.subrange(0, i as int).push(raws[i as int]) =~= pre);
            lemma_filter_push(
                raws.subrange(0, i as int),
                |r: RawModel| r.is_dir && !is_hidden_name(r.name),
                raws[i as int],
            );
            lemma_filter_push(
                raws.subrange(0, i as int),
                |r: RawModel| !r.is_dir && !is_hidden_name(r.name),
                raws[i as int],
            );
        }
        if !hidden {
            if children[i].is_dir {
                let x = children[i].duplicate();
                dirs.push(x);
                proof {
                    assert(dirs.deep_view() =~= shown_dirs(raws.subrange(0, i as int)).push(
                        raws[i as int],
                    ));
                }
            } else {
                let x = children[i].duplicate();
                files.push(x);
                proof {
                    assert(files.deep_view() =~= shown_files(raws.subrange(0, i as int)).push(
                        raws[i as int],
                    ));
                }
            }
        }
        i = i + 1;
    }
    proof {
        assert(raws.subrange(0, children.deep_view().len() as int) =~= raws);
    }
    let sorted_dirs = sort_by_name(dirs);
    let mut ordered = sorted_dirs;
    let mut sorted_files = sort_by_name(files);
    ordered.append(&mut sorted_files);
    proof {
        assert(ordered.deep_view() =~= arranged(raws));
    }
    to_entries(ordered)
}

/// Classifies and numbers an already ordered run of children.
fn to_entries(ordered: Vec<RawEntry>) -> (r: Vec<DirectoryEntry>)
    ensures
        r.deep_view() == Seq::new(
            ordered.deep_view().len(),
            |i: int| entry_for(ordered.deep_view()[i], i),
        ),
{
    let ghost odv: Seq<RawModel> = ordered.deep_view();
    let mut out: Vec<DirectoryEntry> = Vec::new();
    let mut i: usize = 0;
    while i < ordered.len()
        invariant
            i <= ordered.len(),
            odv == ordered.deep_view(),
            out.deep_view() == Seq::new(i as nat, |k: int| entry_for(odv[k], k)),
        decreases ordered.len() - i,
    {
        let kind = if ordered[i].is_dir {
            EntryKind::Directory
        } else if name_is_image(ordered[i].name.as_str()) {
            EntryKind::Image
        } else {
            EntryKind::Generic
        };
        let e = DirectoryEntry {
            name: ordered[i].name.clone(),
            full_path: ordered[i].full_path.clone(),
            kind,
            ordinal: i,
            selected: false,
        };
        proof {
            assert(odv[i as int] == ordered@[i as int]@);
            assert(e@ == entry_for(odv[i as int], i as int));
        }
        let ghost prev: Seq<EntryModel> = out.deep_view();
        let ghost prevv: Seq<DirectoryEntry> = out@;
        out.push(e);
        proof {
            assert(prev.len() == i);
            assert(prev.len() == prevv.len());
            assert(out@ == prevv.push(e));
            assert forall|k: int| 0 <= k <= i implies out.deep_view()[k] == entry_for(
                odv[k],
                k,
            ) by {
                assert(out.deep_view()[k] == out@[k]@);
                if k < i {
                    assert(out@[k] == prevv[k]);
                    assert(prev[k] == prevv[k]@);
                    assert(prev[k] == entry_for(odv[k], k));
                } else {
                    assert(out@[k] == e);
                }
            }
            assert(out.deep_view() =~= Seq::new((i + 1) as nat, |k: int| entry_for(odv[k], k)));
        }
        i = i + 1;
    }
    proof {
        assert(out.deep_view() =~= Seq::new(odv.len(), |k: int| entry_for(odv[k], k)));
    }
    out
}


/// Names ascend (weakly) through the whole run.
pub open spec fn name_sorted(s: Seq<RawModel>) -> bool {
    forall|i: int, j: int|
        0 <= i < j < s.len() ==> lex_le(#[trigger] s[i].name, #[trigger] s[j].name)
}

/// Inserting grows the run by one and adds exactly the new child.
proof fn lemma_insert_named_ensures(s: Seq<RawModel>, x: RawModel)
    ensures
        insert_named(s, x).len() == s.len() + 1,
        insert_named(s, x).to_multiset() =~= s.to_multiset().insert(x),
    decreases s.len(),
{
    broadcast use vstd::seq_lib::group_to_multiset_ensures;

    if s.len() == 0 {
        assert(seq![x] =~= Seq::<RawModel>::empty().push(x));
        assert(Seq::<RawModel>::empty().to_multiset() =~= Multiset::<RawModel>::empty());
    } else if lex_le(s.last().name, x.name) {
    } else {
        lemma_insert_named_ensures(s.drop_last(), x);
        assert(s.drop_last().push(s.last()) =~= s);
    }
}

/// Inserting into a name-sorted run keeps it name-sorted.
proof fn lemma_insert_named_sorted(s: Seq<RawModel>, x: RawModel)
    requires
        name_sorted(s),
    ensures
        name_sorted(insert_named(s, x)),
    decreases s.len(),
{
    broadcast use vstd::seq_lib::group_to_multiset_ensures;

    if s.len() == 0 {
    } else if lex_le(s.last().name, x.name) {
        let r = s.push(x);
        assert forall|i: int, j: int| 0 <= i < j < r.len() implies lex_le(
            r[i].name,
            r[j].name,
        ) by {
            if j == s.len() && i < s.len() - 1 {
                assert(lex_le(s[i].name, s[s.len() - 1].name));
                lemma_lex_le_trans(s[i].name, s.last().name, x.name);
            }
        }
    } else {
        lemma_lex_le_total(s.last().name, x.name);
        assert(name_sorted(s.drop_last()));
        lemma_insert_named_sorted(s.drop_last(), x);
        lemma_insert_named_ensures(s.drop_last(), x);
        let inner = insert_named(s.drop_last(), x);
        let r = inner.push(s.last());
        assert forall|i: int, j: int| 0 <= i < j < r.len() implies lex_le(
            r[i].name,
            r[j].name,
        ) by {
            if j == inner.len() {
                let y = inner[i];
                assert(inner.contains(y));
                assert(inner.to_multiset().count(y) > 0);
                if y == x {
                } else {
                    assert(s.drop_last().to_multiset().count(y) > 0);
                    assert(s.drop_last().contains(y));
                    let w = choose|w: int|
                        0 <= w < s.drop_last().len() && s.drop_last()[w] == y;
                    assert(s[w] == y);
                    assert(lex_le(s[w].name, s[s.len() - 1].name));
                }
            }
        }
    }
}

/// Sorting keeps exactly the given children and orders them by name.
pub proof fn lemma_sort_names_ensures(s: Seq<RawModel>)
    ensures
        sort_names(s).len() == s.len(),
        sort_names(s).to_multiset() =~= s.to_multiset(),
        name_sorted(sort_names(s)),
    decreases s.len(),
{
    broadcast use vstd::seq_lib::group_to_multiset_ensures;

    if s.len() == 0 {
    } else {
        lemma_sort_names_ensures(s.drop_last());
        lemma_insert_named_sorted(sort_names(s.drop_last()), s.last());
        lemma_insert_named_ensures(sort_names(s.drop_last()), s.last());
        assert(s.drop_last().push(s.last()) =~= s);
    }
}

/// Laws of every directory index: ordinals number the rendered order
/// densely from zero; nothing starts selected; no hidden name appears;
/// directory entries precede all others; names ascend inside each
/// partition; and the content is exactly the shown children.
pub proof fn lemma_index_invariant(s: Seq<RawModel>)
    ensures
        build_model(s).len() == shown_dirs(s).len() + shown_files(s).len(),
        forall|i: int|
            0 <= i < build_model(s).len() ==> (#[trigger] build_model(s)[i]).ordinal == i,
        forall|i: int| 0 <= i < build_model(s).len() ==> !(#[trigger] build_model(s)[i]).selected,
        forall|i: int|
            0 <= i < build_model(s).len() ==> !is_hidden_name(
                (#[trigger] build_model(s)[i]).name,
            ),
        forall|i: int, j: int|
            0 <= i < j < build_model(s).len() && (#[trigger] build_model(s)[j]).kind
                == EntryKind::Directory ==> (#[trigger] build_model(s)[i]).kind
                == EntryKind::Directory,
        forall|i: int, j: int|
            0 <= i < j < build_model(s).len() && (((#[trigger] build_model(s)[i]).kind
                == EntryKind::Directory) <==> ((#[trigger] build_model(s)[j]).kind
                == EntryKind::Directory)) ==> lex_le(
                build_model(s)[i].name,
                build_model(s)[j].name,
            ),
        arranged(s).to_multiset() =~= (shown_dirs(s) + shown_files(s)).to_multiset(),
{
    broadcast use vstd::seq_lib::group_to_multiset_ensures;

    let sd = sort_names(shown_dirs(s));
    let sf = sort_names(shown_files(s));
    lemma_sort_names_ensures(shown_dirs(s));
    lemma_sort_names_ensures(shown_files(s));
    assert forall|k: int| 0 <= k < sd.len() implies sd[k].is_dir && !is_hidden_name(
        sd[k].name,
    ) by {
        let y = sd[k];
        assert(sd.contains(y));
        assert(sd.to_multiset().count(y) > 0);
        assert(shown_dirs(s).contains(y));
        let w = choose|w: int| 0 <= w < shown_dirs(s).len() && shown_dirs(s)[w] == y;
        s.lemma_filter_pred(|r: RawModel| r.is_dir && !is_hidden_name(r.name), w);
    }
    assert forall|k: int| 0 <= k < sf.len() implies !sf[k].is_dir && !is_hidden_name(
        sf[k].name,
    ) by {
        let y = sf[k];
        assert(sf.contains(y));
        assert(sf.to_multiset().count(y) > 0);
        assert(shown_files(s).contains(y));
        let w = choose|w: int| 0 <= w < shown_files(s).len() && shown_files(s)[w] == y;
        s.lemma_filter_pred(|r: RawModel| !r.is_dir && !is_hidden_name(r.name), w);
    }
    let a = arranged(s);
    assert(a.len() == sd.len() + sf.len());
    assert forall|k: int| 0 <= k < a.len() implies (a[k].is_dir <==> k < sd.len())
        && !is_hidden_name(a[k].name) by {
        if k < sd.len() {
            assert(a[k] == sd[k]);
        } else {
            assert(a[k] == sf[k - sd.len()]);
        }
    }
    assert forall|i: int, j: int|
        0 <= i < j < build_model(s).len() && (((#[trigger] build_model(s)[i]).kind
            == EntryKind::Directory) <==> ((#[trigger] build_model(s)[j]).kind
            == EntryKind::Directory)) implies lex_le(
        build_model(s)[i].name,
        build_model(s)[j].name,
    ) by {
        assert(build_model(s)[i] == entry_for(a[i], i));
        assert(build_model(s)[j] == entry_for(a[j], j));
        if a[i].is_dir {
            assert(a[i] == sd[i]);
            assert(a[j] == sd[j]);
            assert(lex_le(sd[i].name, sd[j].name));
        } else {
            assert(a[i] == sf[i - sd.len()]);
            assert(a[j] == sf[j - sd.len()]);
            assert(lex_le(sf[i - sd.len()].name, sf[j - sd.len()].name));
        }
    }
    vstd::seq_lib::lemma_multiset_commutative(sd, sf);
    vstd::seq_lib::lemma_multiset_commutative(shown_dirs(s), shown_files(s));
    assert(a.to_multiset() =~= (shown_dirs(s) + shown_files(s)).to_multiset());
}

} // verus!
