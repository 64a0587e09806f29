use vstd::prelude::*;
use crate::plan::{recs_view, RecView, Recording, RecordingFile, Recordings};

verus! {

/// What identifies an artifact's place on disk within one output root:
/// its date directory and its file name.
pub open spec fn rec_key(r: RecView) -> (Seq<char>, Seq<char>) {
    (r.date, r.outfile)
}

/// The keys of every artifact in `s`.
pub open spec fn keys_set(s: Seq<RecView>) -> Set<(Seq<char>, Seq<char>)> {
    Set::new(|k: (Seq<char>, Seq<char>)| exists|i: int| 0 <= i < s.len() && rec_key(s[i]) == k)
}

/// The file set after a run over `s` against the file set `disk`: every
/// planned artifact ends up on disk, whether it was there before or was
/// written by the run.
pub open spec fn disk_after(s: Seq<RecView>, disk: Set<(Seq<char>, Seq<char>)>) -> Set<
    (Seq<char>, Seq<char>),
> {
    disk.union(keys_set(s))
}

/// The manifest of a run: walking the planned artifacts in order, an
/// artifact is newly written (and reported) exactly when no file is at its
/// key yet; writing it adds its key to the file set, so a later duplicate
/// is treated as already present.
pub open spec fn manifest_spec(s: Seq<RecView>, disk: Set<(Seq<char>, Seq<char>)>) -> Seq<RecView>
    decreases s.len(),
{
    if s.len() == 0 {
        Seq::empty()
    } else {
        let r = s.first();
        if disk.contains(rec_key(r)) {
            manifest_spec(s.drop_first(), disk)
        } else {
            seq![r] + manifest_spec(s.drop_first(), disk.insert(rec_key(r)))
        }
    }
}

/// The file set that a per-artifact existence report stands for: the keys
/// of the artifacts reported as already present.
pub open spec fn flagged_disk(s: Seq<RecView>, pre: Seq<bool>) -> Set<(Seq<char>, Seq<char>)> {
    Set::new(
        |k: (Seq<char>, Seq<char>)|
            exists|i: int| 0 <= i < s.len() && pre[i] && rec_key(s[i]) == k,
    )
}

proof fn lemma_keys_drop(s: Seq<RecView>)
    requires
        s.len() > 0,
    ensures
        keys_set(s) =~= keys_set(s.drop_first()).insert(rec_key(s.first())),
{
    assert forall|k: (Seq<char>, Seq<char>)| #[trigger]
        keys_set(s).contains(k) implies keys_set(s.drop_first()).insert(
        rec_key(s.first()),
    ).contains(k) by {
        let idx = choose|idx: int| 0 <= idx < s.len() && rec_key(s[idx]) == k;
        if idx > 0 {
            assert(s.drop_first()[idx - 1] == s[idx]);
            assert(keys_set(s.drop_first()).contains(k));
        }
    }
    assert forall|k: (Seq<char>, Seq<char>)| #[trigger]
        keys_set(s.drop_first()).insert(rec_key(s.first())).contains(k) implies keys_set(
        s,
    ).contains(k) by {
        if keys_set(s.drop_first()).contains(k) {
            let idx = choose|idx: int|
                0 <= idx < s.drop_first().len() && rec_key(s.drop_first()[idx]) == k;
            assert(s[idx + 1] == s.drop_first()[idx]);
            assert(keys_set(s).contains(k));
        } else {
            assert(rec_key(s[0]) == k);
            assert(keys_set(s).contains(k));
        }
    }
}

proof fn lemma_manifest_snoc(s: Seq<RecView>, r: RecView, disk: Set<(Seq<char>, Seq<char>)>)
    ensures
        manifest_spec(s.push(r), disk) == manifest_spec(s, disk) + (if disk_after(
            s,
            disk,
        ).contains(rec_key(r)) {
            Seq::<RecView>::empty()
        } else {
            seq![r]
        }),
    decreases s.len(),
{
    if s.len() == 0 {
        assert(s.push(r).drop_first() =~= Seq::<RecView>::empty());
        assert(keys_set(s) =~= Set::<(Seq<char>, Seq<char>)>::empty());
        assert(disk_after(s, disk) =~= disk);
        reveal_with_fuel(manifest_spec, 3);
        if disk.contains(rec_key(r)) {
            assert(manifest_spec(s.push(r), disk) =~= manifest_spec(s, disk));
        } else {
            assert(manifest_spec(s.push(r), disk) =~= manifest_spec(s, disk) + seq![r]);
        }
    } else {
        let f = s.first();
        assert(s.push(r).first() == f);
        assert(s.push(r).drop_first() =~= s.drop_first().push(r));
        lemma_keys_drop(s);
        if disk.contains(rec_key(f)) {
            lemma_manifest_snoc(s.drop_first(), r, disk);
            assert(disk_after(s.drop_first(), disk) =~= disk_after(s, disk));
        } else {
            lemma_manifest_snoc(s.drop_first(), r, disk.insert(rec_key(f)));
            assert(disk_after(s.drop_first(), disk.insert(rec_key(f))) =~= disk_after(s, disk));
        }
    }
}

/// Every manifest entry is genuinely new — no file was at its key before
/// the run — and no two manifest entries share a key: a duplicate among the
/// planned artifacts is written once, and the later copy is treated as
/// already present rather than written again.
pub proof fn lemma_manifest_new_and_distinct(s: Seq<RecView>, disk: Set<(Seq<char>, Seq<char>)>)
    ensures
        forall|i: int|
            0 <= i < manifest_spec(s, disk).len() ==> !disk.contains(
                rec_key(#[trigger] manifest_spec(s, disk)[i]),
            ),
        forall|i: int, j: int|
            0 <= i < j < manifest_spec(s, disk).len() ==> rec_key(
                #[trigger] manifest_spec(s, disk)[i],
            ) != rec_key(#[trigger] manifest_spec(s, disk)[j]),
    decreases s.len(),
{
    if s.len() > 0 {
        let f = s.first();
        let rest = s.drop_first();
        if disk.contains(rec_key(f)) {
            lemma_manifest_new_and_distinct(rest, disk);
            assert(forall|i: int|
                0 <= i < manifest_spec(s, disk).len() ==> #[trigger] manifest_spec(s, disk)[i]
                    == manifest_spec(rest, disk)[i]);
        } else {
            let d2 = disk.insert(rec_key(f));
            lemma_manifest_new_and_distinct(rest, d2);
            let m = manifest_spec(s, disk);
            let mt = manifest_spec(rest, d2);
            assert(m == seq![f] + mt);
            assert(m[0] == f);
            assert(forall|i: int| 0 < i < m.len() ==> #[trigger] m[i] == mt[i - 1]);
            assert(forall|i: int|
                0 < i < m.len() ==> !d2.contains(rec_key(#[trigger] m[i])));
        }
    }
}

/// When every planned artifact's key already has a file, a run writes
/// nothing: its manifest is empty.
pub proof fn lemma_all_present_empty(s: Seq<RecView>, disk: Set<(Seq<char>, Seq<char>)>)
    requires
        forall|i: int| 0 <= i < s.len() ==> disk.contains(rec_key(#[trigger] s[i])),
    ensures
        manifest_spec(s, disk).len() == 0,
    decreases s.len(),
{
    if s.len() > 0 {
        assert(disk.contains(rec_key(s[0])));
        assert(forall|i: int|
            0 <= i < s.drop_first().len() ==> #[trigger] s.drop_first()[i] == s[i + 1]);
        lemma_all_present_empty(s.drop_first(), disk);
    }
}

/// A run leaves a file at every planned key: the file set afterwards is the
/// prior set joined with all planned keys, whether each file pre-existed or
/// was written by this run.
pub proof fn lemma_disk_after_run(s: Seq<RecView>, disk: Set<(Seq<char>, Seq<char>)>)
    ensures
        disk.union(keys_set(manifest_spec(s, disk))) =~= disk_after(s, disk),
    decreases s.len(),
{
    if s.len() == 0 {
        assert(keys_set(manifest_spec(s, disk)) =~= Set::<(Seq<char>, Seq<char>)>::empty());
        assert(keys_set(s) =~= Set::<(Seq<char>, Seq<char>)>::empty());
    } else {
        let f = s.first();
        let rest = s.drop_first();
        lemma_keys_drop(s);
        if disk.contains(rec_key(f)) {
            lemma_disk_after_run(rest, disk);
            assert(disk.union(keys_set(manifest_spec(s, disk))) =~= disk_after(s, disk));
        } else {
            let d2 = disk.insert(rec_key(f));
            lemma_disk_after_run(rest, d2);
            let m = manifest_spec(s, disk);
            let mt = manifest_spec(rest, d2);
            assert(m == seq![f] + mt);
            assert(m.len() > 0 && m.first() == f);
            assert(m.drop_first() =~= mt);
            lemma_keys_drop(m);
            assert(disk.union(keys_set(m)) =~= d2.union(keys_set(mt)));
            assert(d2.union(keys_set(rest)) =~= disk_after(s, disk));
            assert(disk.union(keys_set(m)) =~= disk_after(s, disk));
        }
    }
}

/// Idempotence of a run: against the file set a first run leaves behind,
/// planning the same artifacts again writes nothing — the second manifest is
/// empty — and the file set does not change again.
pub proof fn lemma_rerun_empty(s: Seq<RecView>, disk: Set<(Seq<char>, Seq<char>)>)
    ensures
        manifest_spec(s, disk_after(s, disk)).len() == 0,
        disk_after(s, disk_after(s, disk)) =~= disk_after(s, disk),
{
    assert forall|i: int| 0 <= i < s.len() implies disk_after(s, disk).contains(
        rec_key(#[trigger] s[i]),
    ) by {
        assert(keys_set(s).contains(rec_key(s[i])));
    }
    lemma_all_present_empty(s, disk_after(s, disk));
}

impl Clone for RecordingFile {
    fn clone(&self) -> (res: Self)
        ensures
            res == *self,
    {
        RecordingFile { outfile: self.outfile.clone(), url: self.url.clone() }
    }
}

impl Clone for Recording {
    fn clone(&self) -> (res: Self)
        ensures
            res == *self,
    {
        Recording { date: self.date.clone(), time: self.time.clone(), file: self.file.clone() }
    }
}

/// Decide which planned artifacts a run writes. `pre_exists` reports, for
/// each artifact, whether a file was already at its key before the run;
/// equal keys must carry equal reports, as they name the same file.
pub fn build_manifest(rlist: &Recordings, pre_exists: &Vec<bool>) -> (m: Recordings)
    requires
        pre_exists@.len() == rlist.recordings@.len(),
        forall|i: int, j: int|
            0 <= i < rlist.recordings@.len() && 0 <= j < rlist.recordings@.len() && rec_key(
                #[trigger] rlist.recordings@[i]@,
            ) == rec_key(#[trigger] rlist.recordings@[j]@) ==> pre_exists@[i] == pre_exists@[j],
    ensures
        recs_view(m.recordings@) == manifest_spec(
            recs_view(rlist.recordings@),
            flagged_disk(recs_view(rlist.recordings@), pre_exists@),
        ),
{
    let ghost views = recs_view(rlist.recordings@);
    let ghost disk0 = flagged_disk(views, pre_exists@);
    let mut m = Recordings { recordings: Vec::new() };
    let n = rlist.recordings.len();
    let mut i: usize = 0;
    while i < n
        invariant
            i <= n,
            n == rlist.recordings@.len(),
            pre_exists@.len() == n,
            views == recs_view(rlist.recordings@),
            disk0 == flagged_disk(views, pre_exists@),
            forall|a: int, b: int|
                0 <= a < n && 0 <= b < n && rec_key(#[trigger] views[a]) == rec_key(
                    #[trigger] views[b],
                ) ==> pre_exists@[a] == pre_exists@[b],
            recs_view(m.recordings@) == manifest_spec(views.take(i as int), disk0),
        decreases n - i,
    {
        let mut found = false;
        let mut j: usize = 0;
        while j < i
            invariant
                j <= i < n,
                n == rlist.recordings@.len(),
                views == recs_view(rlist.recordings@),
                found == exists|j2: int|
                    0 <= j2 < j && rec_key(#[trigger] views[j2]) == rec_key(views[i as int]),
            decreases i - j,
        {
            if rlist.recordings[j].date == rlist.recordings[i].date
                && rlist.recordings[j].file.outfile == rlist.recordings[i].file.outfile {
                proof {
                    assert(rec_key(views[j as int]) == rec_key(views[i as int]));
                }
                found = true;
            }
            j = j + 1;
        }
        proof {
            lemma_manifest_snoc(views.take(i as int), views[i as int], disk0);
            assert(views.take(i + 1) =~= views.take(i as int).push(views[i as int]));
            if disk0.contains(rec_key(views[i as int])) {
                let w = choose|w: int|
                    0 <= w < n && pre_exists@[w] && rec_key(views[w]) == rec_key(views[i as int]);
                assert(pre_exists@[i as int] == pre_exists@[w]);
            }
            if pre_exists@[i as int] {
                assert(disk0.contains(rec_key(views[i as int])));
            }
            if found {
                let j2 = choose|j2: int|
                    0 <= j2 < i && rec_key(#[trigger] views[j2]) == rec_key(views[i as int]);
                assert(views.take(i as int)[j2] == views[j2]);
                assert(keys_set(views.take(i as int)).contains(rec_key(views[i as int])));
            }
            if keys_set(views.take(i as int)).contains(rec_key(views[i as int])) {
                let w = choose|w: int|
                    0 <= w < i && rec_key(views.take(i as int)[w]) == rec_key(views[i as int]);
                assert(rec_key(views[w]) == rec_key(views[i as int]));
            }
        }
        if !pre_exists[i] && !found {
            m.recordings.push(rlist.recordings[i].clone());
            proof {
                assert(recs_view(m.recordings@) =~= manifest_spec(views.take(i as int), disk0)
                    + seq![views[i as int]]);
            }
        }
        i = i + 1;
    }
    proof {
        assert(views.take(n as int) =~= views);
    }
    m
}

} // verus!
