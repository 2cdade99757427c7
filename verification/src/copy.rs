//! The copy of the template into the target directory.

use vstd::prelude::*;
use vstd::string::StringExecFns;
use crate::path::{join_path, joined_path};

verus! {

/// An entry of the scratch clone's top directory.
#[derive(Clone, Debug, PartialEq, Eq)]
pub struct Entry {
    pub name: String,
    pub is_dir: bool,
}

impl View for Entry {
    type V = (Seq<char>, bool);

    open spec fn view(&self) -> (Seq<char>, bool) {
        (self.name@, self.is_dir)
    }
}

/// One copy from the scratch clone into the target directory.
#[derive(Clone, Debug, PartialEq, Eq)]
pub enum CopyAction {
    /// Copy the directory `from` with all that it holds to `to`, replacing
    /// files that are there already.
    Tree { from: String, to: String },
    /// Copy the file `from` to `to`, creating the directory of `to` if it
    /// is missing.
    File { from: String, to: String },
}

/// What a copy says, as plain text.
pub enum CopyActionView {
    Tree { from: Seq<char>, to: Seq<char> },
    File { from: Seq<char>, to: Seq<char> },
}

impl View for CopyAction {
    type V = CopyActionView;

    open spec fn view(&self) -> CopyActionView {
        match self {
            CopyAction::Tree { from, to } => CopyActionView::Tree { from: from@, to: to@ },
            CopyAction::File { from, to } => CopyActionView::File { from: from@, to: to@ },
        }
    }
}

/// The name of the version-control metadata entry.
pub open spec fn is_metadata(name: Seq<char>) -> bool {
    name == ".git"@
}

/// The copy that an entry calls for: none for the version-control metadata,
/// else a copy from the entry's place in `source` to the place of the same
/// name in `target`, of a tree for a directory and of a file for anything
/// else.
pub open spec fn copy_of(target: Seq<char>, source: Seq<char>, entry: (Seq<char>, bool)) -> Option<
    CopyActionView,
> {
    if is_metadata(entry.0) {
        None
    } else if entry.1 {
        Some(
            CopyActionView::Tree {
                from: joined_path(source, entry.0),
                to: joined_path(target, entry.0),
            },
        )
    } else {
        Some(
            CopyActionView::File {
                from: joined_path(source, entry.0),
                to: joined_path(target, entry.0),
            },
        )
    }
}

/// What each entry is, in order.
pub open spec fn entries_view(entries: Seq<Entry>) -> Seq<(Seq<char>, bool)> {
    entries.map_values(|e: Entry| e@)
}

/// What each copy says, in order.
pub open spec fn actions_view(actions: Seq<CopyAction>) -> Seq<CopyActionView> {
    actions.map_values(|a: CopyAction| a@)
}

/// The copies that the entries call for, in the entries' order.
pub open spec fn copy_plan(
    target: Seq<char>,
    source: Seq<char>,
    entries: Seq<(Seq<char>, bool)>,
) -> Seq<CopyActionView> {
    entries.filter_map(|e: (Seq<char>, bool)| copy_of(target, source, e))
}

/// `action` is the copy of one of the entries, and that entry is not the
/// version-control metadata.
pub open spec fn copies_an_entry(
    target: Seq<char>,
    source: Seq<char>,
    entries: Seq<(Seq<char>, bool)>,
    action: CopyActionView,
) -> bool {
    exists|i: int|
        0 <= i < entries.len() && !is_metadata((#[trigger] entries[i]).0) && copy_of(
            target,
            source,
            entries[i],
        ) == Some(action)
}

/// Every copy of the plan is the copy of an entry that is not the
/// version-control metadata, whatever the directory holds.
pub proof fn lemma_metadata_never_copied(
    target: Seq<char>,
    source: Seq<char>,
    entries: Seq<(Seq<char>, bool)>,
)
    ensures
        forall|j: int|
            0 <= j < copy_plan(target, source, entries).len() ==> copies_an_entry(
                target,
                source,
                entries,
                #[trigger] copy_plan(target, source, entries)[j],
            ),
    decreases entries.len(),
{
    let plan = copy_plan(target, source, entries);
    if entries.len() > 0 {
        let head = entries.drop_last();
        let before = copy_plan(target, source, head);
        lemma_metadata_never_copied(target, source, head);
        assert forall|j: int| 0 <= j < plan.len() implies copies_an_entry(
            target,
            source,
            entries,
            #[trigger] plan[j],
        ) by {
            if j < before.len() {
                assert(plan[j] == before[j]);
                assert(copies_an_entry(target, source, head, before[j]));
                let i = choose|i: int|
                    0 <= i < head.len() && !is_metadata((#[trigger] head[i]).0) && copy_of(
                        target,
                        source,
                        head[i],
                    ) == Some(before[j]);
                assert(entries[i] == head[i]);
            } else {
                assert(copy_of(target, source, entries.last()) == Some(plan[j]));
                assert(entries[entries.len() - 1] == entries.last());
            }
        }
    }
}

/// Holds no separator: the name of something that stands directly in a
/// directory.
pub open spec fn plain_name(name: Seq<char>) -> bool {
    forall|i: int| 0 <= i < name.len() ==> #[trigger] name[i] != '/'
}

/// Where a copy starts.
pub open spec fn origin_of(action: CopyActionView) -> Seq<char> {
    match action {
        CopyActionView::Tree { from, to } => from,
        CopyActionView::File { from, to } => from,
    }
}

/// Where a copy goes.
pub open spec fn destination_of(action: CopyActionView) -> Seq<char> {
    match action {
        CopyActionView::Tree { from, to } => to,
        CopyActionView::File { from, to } => to,
    }
}

/// The copy neither starts at the version-control metadata of `source` nor
/// goes to that of `target`.
pub open spec fn spares_metadata(target: Seq<char>, source: Seq<char>, action: CopyActionView) -> bool {
    &&& origin_of(action) != joined_path(source, ".git"@)
    &&& destination_of(action) != joined_path(target, ".git"@)
}

/// Two different plain names stand at different places under one
/// directory.
pub proof fn lemma_join_distinct(base: Seq<char>, a: Seq<char>, b: Seq<char>)
    requires
        plain_name(a),
        plain_name(b),
        a != b,
    ensures
        joined_path(base, a) != joined_path(base, b),
{
    let front = if base.len() > 0 && base.last() != '/' {
        base + seq!['/']
    } else {
        base
    };
    assert(a.len() > 0 ==> a[0] != '/');
    assert(b.len() > 0 ==> b[0] != '/');
    assert(joined_path(base, a) =~= front + a);
    assert(joined_path(base, b) =~= front + b);
    if front + a == front + b {
        assert((front + a).len() == (front + b).len());
        assert forall|i: int| 0 <= i < a.len() implies a[i] == b[i] by {
            assert((front + a)[front.len() + i] == a[i]);
            assert((front + b)[front.len() + i] == b[i]);
        }
        assert(a =~= b);
    }
}

/// Where every entry has a plain name, no copy of the plan starts at the
/// version-control metadata of the source or goes to that of the target.
pub proof fn lemma_plain_names_spare_metadata(
    target: Seq<char>,
    source: Seq<char>,
    entries: Seq<(Seq<char>, bool)>,
)
    requires
        forall|i: int| 0 <= i < entries.len() ==> plain_name((#[trigger] entries[i]).0),
    ensures
        forall|j: int|
            0 <= j < copy_plan(target, source, entries).len() ==> spares_metadata(
                target,
                source,
                #[trigger] copy_plan(target, source, entries)[j],
            ),
{
    let plan = copy_plan(target, source, entries);
    lemma_metadata_never_copied(target, source, entries);
    assert forall|j: int| 0 <= j < plan.len() implies spares_metadata(
        target,
        source,
        #[trigger] plan[j],
    ) by {
        assert(copies_an_entry(target, source, entries, plan[j]));
        let i = choose|i: int|
            0 <= i < entries.len() && !is_metadata((#[trigger] entries[i]).0) && copy_of(
                target,
                source,
                entries[i],
            ) == Some(plan[j]);
        reveal_strlit(".git");
        assert(plain_name(".git"@));
        lemma_join_distinct(source, entries[i].0, ".git"@);
        lemma_join_distinct(target, entries[i].0, ".git"@);
    }
}

/// The copy that one entry calls for, if any.
pub fn copy_action(target: &str, source: &str, entry: &Entry) -> (action: Option<CopyAction>)
    ensures
        match copy_of(target@, source@, entry@) {
            Some(a) => action matches Some(got) && got@ == a,
            None => action is None,
        },
{
    let metadata = String::from_str(".git");
    if entry.name == metadata {
        return None;
    }
    let from = join_path(source, entry.name.as_str());
    let to = join_path(target, entry.name.as_str());
    if entry.is_dir {
        Some(CopyAction::Tree { from, to })
    } else {
        Some(CopyAction::File { from, to })
    }
}

/// Plans the copy of everything that `tmp_clone` holds into `target`,
/// but for the version-control metadata entry: one copy for each other
/// entry, in the entries' order, to the place of the same name. With plain
/// entry names, as a directory listing gives them, no copy touches the
/// version-control metadata of either side.
pub fn copy_template_into(target: &str, tmp_clone: &str, entries: &Vec<Entry>) -> (plan: Vec<
    CopyAction,
>)
    ensures
        actions_view(plan@) == copy_plan(target@, tmp_clone@, entries_view(entries@)),
        forall|j: int|
            0 <= j < plan.len() ==> copies_an_entry(
                target@,
                tmp_clone@,
                entries_view(entries@),
                #[trigger] plan[j]@,
            ),
        (forall|i: int| 0 <= i < entries.len() ==> plain_name((#[trigger] entries[i]).name@))
            ==> forall|j: int|
            0 <= j < plan.len() ==> spares_metadata(target@, tmp_clone@, #[trigger] plan[j]@),
{
    let mut plan: Vec<CopyAction> = Vec::new();
    let ghost all = entries_view(entries@);
    let mut i: usize = 0;
    proof {
        assert(actions_view(plan@) =~= copy_plan(target@, tmp_clone@, all.take(0)));
    }
    while i < entries.len()
        invariant
            i <= entries.len(),
            all == entries_view(entries@),
            actions_view(plan@) == copy_plan(target@, tmp_clone@, all.take(i as int)),
        decreases entries.len() - i,
    {
        proof {
            assert(all.take(i + 1).drop_last() =~= all.take(i as int));
            assert(all.take(i + 1).last() == entries[i as int]@);
        }
        let ghost before = actions_view(plan@);
        match copy_action(target, tmp_clone, &entries[i]) {
            Some(action) => {
                plan.push(action);
                proof {
                    assert(actions_view(plan@) =~= before + seq![action@]);
                }
            },
            None => {},
        }
        i += 1;
    }
    proof {
        assert(all.take(entries.len() as int) =~= all);
        lemma_metadata_never_copied(target@, tmp_clone@, all);
        assert forall|j: int| 0 <= j < plan.len() implies copies_an_entry(
            target@,
            tmp_clone@,
            all,
            #[trigger] plan[j]@,
        ) by {
            assert(copy_plan(target@, tmp_clone@, all)[j] == plan[j]@);
        }
        if forall|i: int| 0 <= i < entries.len() ==> plain_name((#[trigger] entries[i]).name@) {
            assert forall|i: int| 0 <= i < all.len() implies plain_name((#[trigger] all[i]).0) by {
                assert(all[i].0 == entries[i].name@);
            }
            lemma_plain_names_spare_metadata(target@, tmp_clone@, all);
            assert forall|j: int| 0 <= j < plan.len() implies spares_metadata(
                target@,
                tmp_clone@,
                #[trigger] plan[j]@,
            ) by {
                assert(copy_plan(target@, tmp_clone@, all)[j] == plan[j]@);
            }
        }
    }
    plan
}

} // verus!
