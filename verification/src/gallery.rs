//! The gallery: the set of names stored under the upload root, how an upload
//! run changes it, and the image sources the listing renders.

use vstd::prelude::*;
use vstd::string::StringExecFns;
use crate::orchestrator::ActionModel;
use crate::laws::pair_actions;

verus! {

broadcast use vstd::set::group_set_axioms;

/// The upload root after an action trace runs against it: created names
/// enter, cleaned-up names leave, nothing else touches it.
pub open spec fn dir_after(dir: Set<Seq<char>>, acts: Seq<ActionModel>) -> Set<Seq<char>>
    decreases acts.len(),
{
    if acts.len() == 0 {
        dir
    } else {
        let next = match acts[0] {
            ActionModel::OpenSink { name } => dir.insert(name),
            ActionModel::Cleanup { name } => dir.remove(name),
            _ => dir,
        };
        dir_after(next, acts.drop_first())
    }
}

/// A trace runs against the upload root piece by piece.
pub proof fn lemma_dir_after_concat(dir: Set<Seq<char>>, a: Seq<ActionModel>, b: Seq<ActionModel>)
    ensures
        dir_after(dir, a + b) == dir_after(dir_after(dir, a), b),
    decreases a.len(),
{
    if a.len() == 0 {
        assert(a + b =~= b);
    } else {
        assert((a + b)[0] == a[0]);
        assert((a + b).drop_first() =~= a.drop_first() + b);
        let next = match a[0] {
            ActionModel::OpenSink { name } => dir.insert(name),
            ActionModel::Cleanup { name } => dir.remove(name),
            _ => dir,
        };
        lemma_dir_after_concat(next, a.drop_first(), b);
    }
}

/// A clean streaming trace neither creates nor deletes, so it leaves the
/// upload root alone.
pub proof fn lemma_dir_after_pair_actions(dir: Set<Seq<char>>, chunks: Seq<Seq<u8>>)
    ensures
        dir_after(dir, pair_actions(chunks)) == dir,
    decreases chunks.len(),
{
    if chunks.len() > 0 {
        let t = pair_actions(chunks);
        assert(t[0] == (ActionModel::Write { data: chunks[0] }));
        assert(t.drop_first() =~= seq![ActionModel::ReadChunk] + pair_actions(
            chunks.drop_first(),
        ));
        assert(t.drop_first()[0] == ActionModel::ReadChunk);
        assert(t.drop_first().drop_first() =~= pair_actions(chunks.drop_first()));
        lemma_dir_after_pair_actions(dir, chunks.drop_first());
        assert(dir_after(dir, t) == dir_after(dir, t.drop_first()));
        assert(dir_after(dir, t.drop_first()) == dir_after(dir, t.drop_first().drop_first()));
    }
}

/// A successful upload adds exactly its stored name to the upload root.
pub proof fn lemma_dir_after_clean_upload(
    dir: Set<Seq<char>>,
    name: Seq<char>,
    chunks: Seq<Seq<u8>>,
)
    ensures
        dir_after(
            dir,
            seq![ActionModel::OpenSink { name }, ActionModel::ReadChunk] + pair_actions(chunks)
                + seq![ActionModel::Done],
        ) == dir.insert(name),
{
    let a = seq![ActionModel::OpenSink { name }, ActionModel::ReadChunk];
    let b = pair_actions(chunks);
    let c = seq![ActionModel::Done];
    assert(a[0] == (ActionModel::OpenSink { name }));
    assert(a.drop_first() =~= seq![ActionModel::ReadChunk]);
    assert(a.drop_first()[0] == ActionModel::ReadChunk);
    assert(a.drop_first().drop_first().len() == 0);
    assert(dir_after(dir, a) == dir_after(dir.insert(name), a.drop_first()));
    assert(dir_after(dir.insert(name), a.drop_first()) == dir_after(
        dir.insert(name),
        a.drop_first().drop_first(),
    ));
    assert(dir_after(dir, a) == dir.insert(name));
    lemma_dir_after_concat(dir, a, b + c);
    lemma_dir_after_concat(dir.insert(name), b, c);
    lemma_dir_after_pair_actions(dir.insert(name), chunks);
    assert(c[0] == ActionModel::Done);
    assert(c.drop_first().len() == 0);
    assert(dir_after(dir.insert(name), c) == dir_after(dir.insert(name), c.drop_first()));
    assert(dir_after(dir.insert(name), c) == dir.insert(name));
    assert(a + b + c =~= a + (b + c));
}

/// A streaming-stage rejection followed by its cleanup leaves the upload
/// root exactly as it was: the partial file does not remain. The generated
/// name is assumed not to collide with an entry already present.
pub proof fn lemma_dir_after_cleaned_upload(
    dir: Set<Seq<char>>,
    name: Seq<char>,
    chunks: Seq<Seq<u8>>,
)
    requires
        !dir.contains(name),
    ensures
        dir_after(
            dir,
            seq![ActionModel::OpenSink { name }, ActionModel::ReadChunk] + pair_actions(chunks)
                + seq![ActionModel::Cleanup { name }],
        ) == dir,
{
    let a = seq![ActionModel::OpenSink { name }, ActionModel::ReadChunk];
    let b = pair_actions(chunks);
    let c = seq![ActionModel::Cleanup { name }];
    assert(a[0] == (ActionModel::OpenSink { name }));
    assert(a.drop_first() =~= seq![ActionModel::ReadChunk]);
    assert(a.drop_first()[0] == ActionModel::ReadChunk);
    assert(a.drop_first().drop_first().len() == 0);
    assert(dir_after(dir, a) == dir_after(dir.insert(name), a.drop_first()));
    assert(dir_after(dir.insert(name), a.drop_first()) == dir_after(
        dir.insert(name),
        a.drop_first().drop_first(),
    ));
    assert(dir_after(dir, a) == dir.insert(name));
    lemma_dir_after_concat(dir, a, b + c);
    lemma_dir_after_concat(dir.insert(name), b, c);
    lemma_dir_after_pair_actions(dir.insert(name), chunks);
    assert(c[0] == (ActionModel::Cleanup { name }));
    assert(c.drop_first().len() == 0);
    assert(dir_after(dir.insert(name), c) == dir_after(
        dir.insert(name).remove(name),
        c.drop_first(),
    ));
    assert(dir_after(dir.insert(name), c) == dir.insert(name).remove(name));
    assert(dir.insert(name).remove(name) =~= dir);
    assert(a + b + c =~= a + (b + c));
}

/// The upload root after a sequence of successful uploads stored these
/// names, in order.
pub open spec fn dir_with(dir: Set<Seq<char>>, names: Seq<Seq<char>>) -> Set<Seq<char>>
    decreases names.len(),
{
    if names.len() == 0 {
        dir
    } else {
        dir_with(dir.insert(names[0]), names.drop_first())
    }
}

/// Listing the gallery after some number of successful uploads and zero
/// deletions: exactly one entry more per upload, each stored name among the
/// entries, and nothing listed beyond the old entries and the stored names.
/// The generated names are assumed pairwise distinct and absent from the
/// root beforehand, which is what their collision-resistant construction is
/// for.
pub proof fn lemma_gallery_after_uploads(dir: Set<Seq<char>>, names: Seq<Seq<char>>)
    requires
        dir.finite(),
        forall|i: int, j: int| 0 <= i < j < names.len() ==> names[i] != names[j],
        forall|i: int| 0 <= i < names.len() ==> !dir.contains(#[trigger] names[i]),
    ensures
        dir_with(dir, names).finite(),
        dir_with(dir, names).len() == dir.len() + names.len(),
        forall|i: int| 0 <= i < names.len() ==> dir_with(dir, names).contains(
            #[trigger] names[i],
        ),
        forall|n: Seq<char>|
            dir_with(dir, names).contains(n) <==> dir.contains(n) || names.contains(n),
    decreases names.len(),
{
    if names.len() == 0 {
        assert(forall|n: Seq<char>| !names.contains(n));
    } else {
        let first = names[0];
        let dir1 = dir.insert(first);
        let rest = names.drop_first();
        assert(forall|i: int| 0 <= i < rest.len() ==> rest[i] == names[i + 1]);
        assert(forall|i: int| 0 <= i < rest.len() ==> !dir1.contains(#[trigger] rest[i]));
        lemma_gallery_after_uploads(dir1, rest);
        assert(dir1.len() == dir.len() + 1);
        assert(forall|i: int| 0 <= i < names.len() ==> dir_with(dir, names).contains(
            #[trigger] names[i],
        )) by {
            assert(dir_with(dir, names) == dir_with(dir1, rest));
            assert(dir1.contains(first));
            assert(dir_with(dir1, rest).contains(first));
            assert(forall|i: int| 1 <= i < names.len() ==> names[i] == rest[i - 1]);
        }
        assert forall|n: Seq<char>|
            dir_with(dir, names).contains(n) <==> dir.contains(n) || names.contains(n) by {
            assert(dir_with(dir, names) == dir_with(dir1, rest));
            if names.contains(n) {
                let i = choose|i: int| 0 <= i < names.len() && names[i] == n;
                if i == 0 {
                    assert(dir1.contains(n));
                } else {
                    assert(rest[i - 1] == n);
                    assert(rest.contains(n));
                }
            }
            if rest.contains(n) {
                let i = choose|i: int| 0 <= i < rest.len() && rest[i] == n;
                assert(names[i + 1] == n);
                assert(names.contains(n));
            }
            if n == first {
                assert(names[0] == n);
                assert(names.contains(n));
            }
        }
    }
}

/// Builds the gallery's image sources: the public prefix put before each
/// stored entry, one source per entry, in listing order.
pub fn gallery_src_urls(prefix: &str, entries: &Vec<String>) -> (r: Vec<String>)
    ensures
        r@.len() == entries@.len(),
        forall|i: int| 0 <= i < entries@.len() ==> (#[trigger] r@[i])@ == prefix@ + entries@[i]@,
{
    let mut out: Vec<String> = Vec::new();
    let mut i: usize = 0;
    while i < entries.len()
        invariant
            i <= entries.len(),
            out@.len() == i,
            forall|j: int| 0 <= j < i ==> (#[trigger] out@[j])@ == prefix@ + entries@[j]@,
        decreases entries.len() - i,
    {
        let u = String::from_str(prefix).concat(entries[i].as_str());
        out.push(u);
        i += 1;
    }
    out
}

} // verus!
