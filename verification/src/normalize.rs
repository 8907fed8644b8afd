//! Normalization of an extracted archive into the canonical project layout:
//! every source file found among the immediate children of the project root
//! is moved into the source subdirectory.
//!
//! The module works on a listing of the directory — the names of the
//! immediate child files of the root and of the source subdirectory — and
//! plans the moves; the caller performs the renames and re-lists. A later
//! entry with the same name stands for a file that overwrote an earlier one.

use vstd::prelude::*;
use crate::text::has_rs_extension;
use crate::text::is_rs_file_name;

verus! {

/// The immediate child files of a project root and of its source
/// subdirectory, by name.
#[derive(Debug)]
pub struct DirListing {
    pub root_files: Vec<String>,
    pub src_files: Vec<String>,
}

/// Mathematical image of a listing.
pub struct ListingView {
    pub root_files: Seq<Seq<char>>,
    pub src_files: Seq<Seq<char>>,
}

impl View for DirListing {
    type V = ListingView;

    open spec fn view(&self) -> ListingView {
        ListingView { root_files: self.root_files.deep_view(), src_files: self.src_files.deep_view() }
    }
}

/// The names with the source-file extension, in order.
pub open spec fn keep_rs(names: Seq<Seq<char>>) -> Seq<Seq<char>>
    decreases names.len(),
{
    if names.len() == 0 {
        seq![]
    } else if has_rs_extension(names.last()) {
        keep_rs(names.drop_last()).push(names.last())
    } else {
        keep_rs(names.drop_last())
    }
}

/// The names without the source-file extension, in order.
pub open spec fn drop_rs(names: Seq<Seq<char>>) -> Seq<Seq<char>>
    decreases names.len(),
{
    if names.len() == 0 {
        seq![]
    } else if has_rs_extension(names.last()) {
        drop_rs(names.drop_last())
    } else {
        drop_rs(names.drop_last()).push(names.last())
    }
}

/// The listing after normalization: source files leave the root and join the
/// source subdirectory.
pub open spec fn normalize_spec(l: ListingView) -> ListingView {
    ListingView {
        root_files: drop_rs(l.root_files),
        src_files: l.src_files + keep_rs(l.root_files),
    }
}

/// A listing is canonical when no source file sits at the root.
pub open spec fn is_canonical(l: ListingView) -> bool {
    forall|i: int| 0 <= i < l.root_files.len() ==> !has_rs_extension(l.root_files[i])
}

pub proof fn lemma_keep_rs_all(names: Seq<Seq<char>>)
    ensures
        forall|i: int| #![auto] 0 <= i < keep_rs(names).len() ==> has_rs_extension(keep_rs(names)[i]),
        forall|i: int| #![auto] 0 <= i < drop_rs(names).len() ==> !has_rs_extension(drop_rs(names)[i]),
        forall|i: int| #![auto] 0 <= i < names.len() && has_rs_extension(names[i]) ==> keep_rs(
            names,
        ).contains(names[i]),
        forall|i: int| #![auto] 0 <= i < names.len() && !has_rs_extension(names[i]) ==> drop_rs(
            names,
        ).contains(names[i]),
    decreases names.len(),
{
    if names.len() > 0 {
        let t = names.drop_last();
        lemma_keep_rs_all(t);
        assert forall|i: int|
            0 <= i < names.len() && has_rs_extension(names[i]) implies #[trigger] keep_rs(
            names,
        ).contains(names[i]) by {
            if i < names.len() - 1 {
                assert(t[i] == names[i]);
                assert(keep_rs(t).contains(names[i]));
                let w = choose|w: int| 0 <= w < keep_rs(t).len() && keep_rs(t)[w] == names[i];
                if has_rs_extension(names.last()) {
                    assert(keep_rs(names)[w] == names[i]);
                }
            } else {
                assert(keep_rs(names).last() == names[i]);
            }
        }
        assert forall|i: int|
            0 <= i < names.len() && !has_rs_extension(names[i]) implies #[trigger] drop_rs(
            names,
        ).contains(names[i]) by {
            if i < names.len() - 1 {
                assert(t[i] == names[i]);
                assert(drop_rs(t).contains(names[i]));
                let w = choose|w: int| 0 <= w < drop_rs(t).len() && drop_rs(t)[w] == names[i];
                if !has_rs_extension(names.last()) {
                    assert(drop_rs(names)[w] == names[i]);
                }
            } else {
                assert(drop_rs(names).last() == names[i]);
            }
        }
    }
}

/// On a canonical listing, normalization is a no-op: nothing is selected to
/// move and the listing is unchanged. Normalization is therefore idempotent:
/// its result is always canonical, and normalizing twice is normalizing once.
pub proof fn lemma_normalize_idempotent(l: ListingView)
    ensures
        is_canonical(l) ==> keep_rs(l.root_files) == Seq::<Seq<char>>::empty() && normalize_spec(l)
            == l,
        is_canonical(normalize_spec(l)),
        normalize_spec(normalize_spec(l)) == normalize_spec(l),
{
    lemma_keep_rs_all(l.root_files);
    if is_canonical(l) {
        lemma_keep_rs_empty(l.root_files);
        assert(normalize_spec(l).src_files =~= l.src_files);
        assert(normalize_spec(l).root_files =~= l.root_files);
        assert(normalize_spec(l) == l);
    }
    lemma_keep_rs_all(normalize_spec(l).root_files);
    lemma_keep_rs_empty(normalize_spec(l).root_files);
    assert(normalize_spec(normalize_spec(l)).src_files =~= normalize_spec(l).src_files);
    assert(normalize_spec(normalize_spec(l)).root_files =~= normalize_spec(l).root_files);
}

/// Normalization repairs a misplaced layout: every source file that sat at
/// the root is afterwards present under the source subdirectory and absent
/// from the root, while every other root file — the manifest among them —
/// stays at the root.
pub proof fn lemma_normalize_repairs(l: ListingView)
    ensures
        forall|i: int|
            #![auto]
            0 <= i < l.root_files.len() && has_rs_extension(l.root_files[i]) ==> normalize_spec(
                l,
            ).src_files.contains(l.root_files[i]),
        forall|i: int|
            #![auto]
            0 <= i < normalize_spec(l).root_files.len() ==> !has_rs_extension(
                normalize_spec(l).root_files[i],
            ),
        forall|i: int|
            #![auto]
            0 <= i < l.root_files.len() && !has_rs_extension(l.root_files[i]) ==> normalize_spec(
                l,
            ).root_files.contains(l.root_files[i]),
{
    lemma_keep_rs_all(l.root_files);
    assert forall|i: int|
        0 <= i < l.root_files.len() && has_rs_extension(
            l.root_files[i],
        ) implies #[trigger] normalize_spec(l).src_files.contains(l.root_files[i]) by {
        let k = keep_rs(l.root_files);
        let w = choose|w: int| 0 <= w < k.len() && k[w] == l.root_files[i];
        assert(normalize_spec(l).src_files[l.src_files.len() + w] == l.root_files[i]);
    }
}

proof fn lemma_keep_rs_empty(names: Seq<Seq<char>>)
    requires
        forall|i: int| 0 <= i < names.len() ==> !has_rs_extension(names[i]),
    ensures
        keep_rs(names) == Seq::<Seq<char>>::empty(),
        drop_rs(names) == names,
    decreases names.len(),
{
    if names.len() > 0 {
        lemma_keep_rs_empty(names.drop_last());
        assert(drop_rs(names) =~= names);
    }
}

/// Plans and applies the repair of a freshly extracted archive: every
/// misplaced source file among the root's immediate children moves into the
/// source subdirectory under its own name; everything else stays. The
/// returned vector lists the moved names, in order.
pub fn normalize(l: &DirListing) -> (r: (DirListing, Vec<String>))
    ensures
        r.0@ == normalize_spec(l@),
        r.1.deep_view() == keep_rs(l@.root_files),
{
    let mut root: Vec<String> = Vec::new();
    let mut moved: Vec<String> = Vec::new();
    let mut src: Vec<String> = Vec::new();
    let mut i: usize = 0;
    while i < l.src_files.len()
        invariant
            0 <= i <= l.src_files.len(),
            src.deep_view() == l.src_files.deep_view().take(i as int),
        decreases l.src_files.len() - i,
    {
        let ghost old_dv = src.deep_view();
        src.push(l.src_files[i].clone());
        proof {
            let dv = l.src_files.deep_view();
            assert(src.deep_view() =~= old_dv.push(dv[i as int]));
            assert(dv.take(i + 1) =~= dv.take(i as int).push(dv[i as int]));
        }
        i += 1;
    }
    proof {
        let dv = l.src_files.deep_view();
        assert(dv.take(l.src_files@.len() as int) =~= dv);
    }
    let mut j: usize = 0;
    while j < l.root_files.len()
        invariant
            0 <= j <= l.root_files.len(),
            root.deep_view() == drop_rs(l.root_files.deep_view().take(j as int)),
            moved.deep_view() == keep_rs(l.root_files.deep_view().take(j as int)),
            src.deep_view() == l.src_files.deep_view() + keep_rs(
                l.root_files.deep_view().take(j as int),
            ),
        decreases l.root_files.len() - j,
    {
        let ghost dv = l.root_files.deep_view();
        proof {
            assert(dv.take(j + 1).drop_last() =~= dv.take(j as int));
            assert(dv.take(j + 1).last() == dv[j as int]);
        }
        let name = &l.root_files[j];
        if is_rs_file_name(name.as_str()) {
            let ghost old_moved = moved.deep_view();
            let ghost old_src = src.deep_view();
            moved.push(name.clone());
            src.push(name.clone());
            proof {
                assert(moved.deep_view() =~= old_moved.push(dv[j as int]));
                assert(src.deep_view() =~= old_src.push(dv[j as int]));
                assert(src.deep_view() =~= l.src_files.deep_view() + keep_rs(dv.take(j + 1)));
            }
        } else {
            let ghost old_root = root.deep_view();
            root.push(name.clone());
            proof {
                assert(root.deep_view() =~= old_root.push(dv[j as int]));
            }
        }
        j += 1;
    }
    proof {
        let dv = l.root_files.deep_view();
        assert(dv.take(l.root_files@.len() as int) =~= dv);
    }
    (DirListing { root_files: root, src_files: src }, moved)
}

} // verus!
